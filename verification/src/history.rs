//! The library of captures.
//!
//! The files in the save folder are the captures. An index beside them knows what
//! a file cannot tell, such as how a capture came about, and nothing more: a file
//! that the index does not know of is listed all the same, and what the index says
//! of a file that is gone is not.

use std::collections::HashMap;

use vstd::prelude::*;
use vstd::string::*;

use crate::capture::pixels::make_thumbnail;
use crate::capture::{CaptureKind, CaptureRecord, RecordView};
use crate::clock::parse_rfc3339;
use crate::config::{join_path, ImageFormat};
use crate::keys::{hash_text, lowercase, thumbnail_key, KeyCache};
use crate::order::{stable_order, Key};
use crate::overlay::FRAME_SCHEME;
use crate::naming::ResolvedName;
use crate::text::{chars_of, contains, same, string_of, to_ascii_lower, trim};

verus! {

// ---------------------------------------------------------------------------
// Paths
// ---------------------------------------------------------------------------

/// Whether a character stands between the parts of a path.
pub open spec fn is_separator(c: char) -> bool {
    c == '/' || c == '\\'
}

/// Whether a path is taken word for word, so that a slash is an ordinary character
/// and a full stop is a name.
pub open spec fn is_verbatim(path: Seq<char>) -> bool {
    path.len() >= 4 && path[0] == '\\' && path[1] == '\\' && path[2] == '?' && path[3] == '\\'
}

/// Whether a character stands between the parts of a path that may be verbatim.
pub open spec fn divides(c: char, verbatim: bool) -> bool {
    c == '\\' || (c == '/' && !verbatim)
}

/// Where the part of a path ends that starts at a place.
pub open spec fn part_end(path: Seq<char>, from: int, verbatim: bool) -> int
    decreases path.len() - from,
{
    if from >= path.len() || divides(path[from], verbatim) {
        from
    } else {
        part_end(path, from + 1, verbatim)
    }
}

/// Where the two parts of a path end of which the first starts at a place: a server
/// and its share.
pub open spec fn share_end(path: Seq<char>, from: int, verbatim: bool) -> int {
    let server = part_end(path, from, verbatim);
    if server >= path.len() {
        server
    } else {
        part_end(path, server + 1, verbatim)
    }
}

pub open spec fn is_letter(c: char) -> bool {
    'a' <= c <= 'z' || 'A' <= c <= 'Z'
}

/// Whether a drive stands at a place of a path.
pub open spec fn has_drive(path: Seq<char>, at: int) -> bool {
    path.len() >= at + 2 && is_letter(path[at]) && path[at + 1] == ':'
}

/// Where the volume ends that a path starts with, such as a drive or the share of a
/// server. A path without one starts at once.
pub open spec fn volume_end(path: Seq<char>) -> int {
    if is_verbatim(path) {
        if path.len() >= 8 && path[4] == 'U' && path[5] == 'N' && path[6] == 'C' && path[7]
            == '\\' {
            share_end(path, 8, true)
        } else if has_drive(path, 4) && (path.len() == 6 || path[6] == '\\') {
            6
        } else {
            part_end(path, 4, true)
        }
    } else if path.len() >= 2 && is_separator(path[0]) && is_separator(path[1]) {
        if path.len() >= 4 && path[2] == '.' && is_separator(path[3]) {
            part_end(path, 4, false)
        } else {
            let server = part_end(path, 2, false);
            let share = share_end(path, 2, false);
            if server > 2 && share > server + 1 {
                share
            } else {
                0
            }
        }
    } else if has_drive(path, 0) {
        2
    } else {
        0
    }
}

/// A path without what says nothing of it at its end: separators, and a full stop
/// that stands for the folder itself.
pub open spec fn bare_path(path: Seq<char>, verbatim: bool) -> Seq<char>
    decreases path.len(),
{
    if path.len() > 0 && divides(path.last(), verbatim) {
        bare_path(path.drop_last(), verbatim)
    } else if !verbatim && path.len() > 1 && path.last() == '.' && is_separator(
        path[path.len() - 2],
    ) {
        bare_path(path.drop_last(), verbatim)
    } else {
        path
    }
}

/// Where the last part of a path starts.
pub open spec fn name_start(path: Seq<char>, verbatim: bool) -> int
    decreases path.len(),
{
    if path.len() == 0 || divides(path.last(), verbatim) {
        path.len() as int
    } else {
        name_start(path.drop_last(), verbatim)
    }
}

/// The place of the last full stop, or -1 where there is none.
pub open spec fn last_dot(name: Seq<char>) -> int
    decreases name.len(),
{
    if name.len() == 0 {
        -1
    } else if name.last() == '.' {
        name.len() - 1
    } else {
        last_dot(name.drop_last())
    }
}

/// The name of a file, from its path. What only points to a volume or to a folder has
/// none.
pub open spec fn spec_file_name(path: Seq<char>) -> Seq<char> {
    let verbatim = is_verbatim(path);
    let bare = bare_path(path.skip(volume_end(path)), verbatim);
    let name = bare.skip(name_start(bare, verbatim));
    if name == seq!['.'] || name == seq!['.', '.'] {
        seq![]
    } else {
        name
    }
}

/// What follows the last full stop of a file's name, unless it starts the name.
pub open spec fn spec_extension_of(path: Seq<char>) -> Option<Seq<char>> {
    let name = spec_file_name(path);
    let dot = last_dot(name);
    if dot <= 0 {
        None
    } else {
        Some(name.skip(dot + 1))
    }
}

fn find_part_end(chars: &Vec<char>, from: usize, verbatim: bool) -> (r: usize)
    requires
        from <= chars.len(),
    ensures
        r == part_end(chars@, from as int, verbatim),
        from <= r <= chars.len(),
{
    let mut end: usize = from;
    while end < chars.len() && chars[end] != '\\' && (chars[end] != '/' || verbatim)
        invariant
            from <= end <= chars.len(),
            part_end(chars@, from as int, verbatim) == part_end(chars@, end as int, verbatim),
        decreases chars.len() - end,
    {
        end += 1;
    }
    end
}

fn find_share_end(chars: &Vec<char>, from: usize, verbatim: bool) -> (r: usize)
    requires
        from <= chars.len(),
    ensures
        r == share_end(chars@, from as int, verbatim),
        from <= r <= chars.len(),
{
    let server: usize = find_part_end(chars, from, verbatim);
    if server >= chars.len() {
        return server;
    }
    find_part_end(chars, server + 1, verbatim)
}

/// Whether a drive stands at a place of a path.
pub(crate) fn drive_at(chars: &Vec<char>, at: usize) -> (r: bool)
    requires
        at <= 4,
    ensures
        r == has_drive(chars@, at as int),
{
    if chars.len() < at + 2 {
        return false;
    }
    let c: char = chars[at];
    (('a' <= c && c <= 'z') || ('A' <= c && c <= 'Z')) && chars[at + 1] == ':'
}

fn separates(c: char) -> (r: bool)
    ensures
        r == is_separator(c),
{
    c == '/' || c == '\\'
}

fn verbatim_path(chars: &Vec<char>) -> (r: bool)
    ensures
        r == is_verbatim(chars@),
{
    chars.len() >= 4 && chars[0] == '\\' && chars[1] == '\\' && chars[2] == '?' && chars[3]
        == '\\'
}

/// Finds where the volume ends that a path starts with.
fn find_volume_end(chars: &Vec<char>) -> (r: usize)
    ensures
        r == volume_end(chars@),
        r <= chars.len(),
{
    if verbatim_path(chars) {
        if chars.len() >= 8 && chars[4] == 'U' && chars[5] == 'N' && chars[6] == 'C' && chars[7]
            == '\\' {
            return find_share_end(chars, 8, true);
        }
        if drive_at(chars, 4) && (chars.len() == 6 || chars[6] == '\\') {
            return 6;
        }
        return find_part_end(chars, 4, true);
    }
    if chars.len() >= 2 && separates(chars[0]) && separates(chars[1]) {
        if chars.len() >= 4 && chars[2] == '.' && separates(chars[3]) {
            return find_part_end(chars, 4, false);
        }
        let server: usize = find_part_end(chars, 2, false);
        let share: usize = find_share_end(chars, 2, false);
        if server > 2 && share > server && share - server > 1 {
            return share;
        }
        return 0;
    }
    if drive_at(chars, 0) {
        return 2;
    }
    0
}

/// The name of a file, from its path.
pub fn file_name_of(path: &str) -> (r: String)
    ensures
        r@ == spec_file_name(path@),
{
    let all: Vec<char> = chars_of(path);
    let verbatim: bool = verbatim_path(&all);
    let volume: usize = find_volume_end(&all);
    let len: usize = all.len();
    let below: String = string_of(&all, volume, len);
    let ghost rest = path@.skip(volume as int);
    assert(below@ =~= rest);
    let chars: Vec<char> = chars_of(below.as_str());
    let mut end: usize = chars.len();
    assert(rest.take(rest.len() as int) =~= rest);
    while end > 0 && (chars[end - 1] == '\\' || (chars[end - 1] == '/' && !verbatim) || (!verbatim
        && chars[end - 1] == '.' && end > 1 && separates(chars[end - 2])))
        invariant
            0 <= end <= chars.len(),
            chars@ == rest,
            bare_path(rest, verbatim) == bare_path(rest.take(end as int), verbatim),
        decreases end,
    {
        assert(rest.take(end as int).drop_last() =~= rest.take(end - 1));
        end -= 1;
    }
    let ghost bare = rest.take(end as int);
    assert(bare_path(rest, verbatim) == bare);
    let mut start: usize = end;
    assert(bare.take(end as int) =~= bare);
    while start > 0 && chars[start - 1] != '\\' && (chars[start - 1] != '/' || verbatim)
        invariant
            0 <= start <= end <= chars.len(),
            chars@ == rest,
            bare == rest.take(end as int),
            name_start(bare, verbatim) == name_start(bare.take(start as int), verbatim),
        decreases start,
    {
        assert(bare.take(start as int).drop_last() =~= bare.take(start - 1));
        start -= 1;
    }
    assert(chars@.subrange(start as int, end as int) =~= bare.skip(start as int));
    let name: String = string_of(&chars, start, end);
    proof {
        reveal_strlit(".");
        reveal_strlit("..");
        assert("."@ =~= seq!['.']);
        assert(".."@ =~= seq!['.', '.']);
    }
    if same(name.as_str(), ".") || same(name.as_str(), "..") {
        return String::new();
    }
    name
}

/// The extension of a file.
pub fn extension_of(path: &str) -> (r: Option<String>)
    ensures
        crate::capture::text_view(r) == spec_extension_of(path@),
{
    let name: String = file_name_of(path);
    let chars: Vec<char> = chars_of(name.as_str());
    let mut dot: usize = chars.len();
    assert(name@.take(name@.len() as int) =~= name@);
    while dot > 0 && chars[dot - 1] != '.'
        invariant
            0 <= dot <= chars.len(),
            chars@ == name@,
            last_dot(name@) == last_dot(name@.take(dot as int)),
        decreases dot,
    {
        assert(name@.take(dot as int).drop_last() =~= name@.take(dot - 1));
        dot -= 1;
    }
    assert(last_dot(name@) == dot - 1);
    if dot <= 1 {
        return None;
    }
    let end: usize = chars.len();
    assert(chars@.subrange(dot as int, end as int) =~= name@.skip(dot as int));
    Some(string_of(&chars, dot, end))
}

/// Whether a path is that of an image.
pub open spec fn spec_is_image(path: Seq<char>) -> bool {
    spec_format_of(path) is Some
}

/// What kind of image a path is of.
pub open spec fn spec_format_of(path: Seq<char>) -> Option<ImageFormat> {
    match spec_extension_of(path) {
        Some(extension) => {
            let lower = crate::text::ascii_lowered(extension);
            if lower == "png"@ {
                Some(ImageFormat::Png)
            } else if lower == "jpg"@ || lower == "jpeg"@ {
                Some(ImageFormat::Jpeg)
            } else {
                None
            }
        },
        None => None,
    }
}

/// What kind of image a path is of, told by its extension in any casing.
pub fn format_of(path: &str) -> (r: Option<ImageFormat>)
    ensures
        r == spec_format_of(path@),
{
    match extension_of(path) {
        Some(extension) => {
            let lower: String = to_ascii_lower(extension.as_str());
            if same(lower.as_str(), "png") {
                Some(ImageFormat::Png)
            } else if same(lower.as_str(), "jpg") || same(lower.as_str(), "jpeg") {
                Some(ImageFormat::Jpeg)
            } else {
                None
            }
        },
        None => None,
    }
}

/// The format that a file is read in, told by its extension in any casing. More
/// extensions are read than captures have.
pub open spec fn spec_read_format(path: Seq<char>) -> Option<ImageFormat> {
    match spec_extension_of(path) {
        Some(extension) => {
            let lower = crate::text::ascii_lowered(extension);
            if lower == "png"@ || lower == "apng"@ {
                Some(ImageFormat::Png)
            } else if lower == "jpg"@ || lower == "jpeg"@ || lower == "jfif"@ {
                Some(ImageFormat::Jpeg)
            } else {
                None
            }
        },
        None => None,
    }
}

/// The format that a file is read in.
pub fn read_format(path: &str) -> (r: Option<ImageFormat>)
    ensures
        r == spec_read_format(path@),
{
    match extension_of(path) {
        Some(extension) => {
            let lower: String = to_ascii_lower(extension.as_str());
            if same(lower.as_str(), "png") || same(lower.as_str(), "apng") {
                Some(ImageFormat::Png)
            } else if same(lower.as_str(), "jpg") || same(lower.as_str(), "jpeg") || same(
                lower.as_str(),
                "jfif",
            ) {
                Some(ImageFormat::Jpeg)
            } else {
                None
            }
        },
        None => None,
    }
}

/// Whether a path is that of an image.
pub fn is_image(path: &str) -> (r: bool)
    ensures
        r == spec_is_image(path@),
{
    format_of(path).is_some()
}

// ---------------------------------------------------------------------------
// The index
// ---------------------------------------------------------------------------

/// What the index says, in the order in which it was written.
pub struct HistoryIndex {
    /// The place of the last record for each hash of a path in lower case.
    places: HashMap<u64, usize>,
    /// For each record, the place of the last one before it with the same hash.
    earlier: Vec<Option<usize>>,
    /// Each path in lower case.
    keys: Vec<String>,
    records: Vec<CaptureRecord>,
}

/// The last of the first `n` places whose path has a hash.
spec fn last_with(keys: Seq<String>, hash: u64, n: nat) -> Option<usize>
    decreases n,
{
    if n == 0 {
        None
    } else if crate::keys::path_hash(keys[n - 1]@) == hash {
        Some((n - 1) as usize)
    } else {
        last_with(keys, hash, (n - 1) as nat)
    }
}

proof fn lemma_last_with(keys: Seq<String>, hash: u64, n: nat)
    requires
        n <= keys.len() <= usize::MAX,
    ensures
        match last_with(keys, hash, n) {
            Some(i) => {
                &&& i < n
                &&& crate::keys::path_hash(keys[i as int]@) == hash
                &&& forall|k: int| i < k < n ==> crate::keys::path_hash((#[trigger] keys[k])@)
                    != hash
            },
            None => forall|k: int|
                0 <= k < n ==> crate::keys::path_hash((#[trigger] keys[k])@) != hash,
        },
    decreases n,
{
    if n > 0 {
        lemma_last_with(keys, hash, (n - 1) as nat);
    }
}

/// One path more changes nothing of the places before it.
proof fn lemma_last_with_push(keys: Seq<String>, key: String, hash: u64, n: nat)
    requires
        n <= keys.len(),
    ensures
        last_with(keys.push(key), hash, n) == last_with(keys, hash, n),
    decreases n,
{
    if n > 0 {
        lemma_last_with_push(keys, key, hash, (n - 1) as nat);
    }
}

/// Records of other paths do not count.
proof fn lemma_latest_skips(records: Seq<RecordView>, path: Seq<char>, from: int, to: int)
    requires
        0 <= from <= to <= records.len(),
        forall|k: int|
            from <= k < to ==> crate::keys::lowered((#[trigger] records[k]).path)
                != crate::keys::lowered(path),
    ensures
        latest(records.take(to), path) == latest(records.take(from), path),
    decreases to,
{
    if from < to {
        lemma_latest_skips(records, path, from, to - 1);
        assert(records.take(to).drop_last() =~= records.take(to - 1));
        assert(records.take(to).last() == records[to - 1]);
    }
}

/// What a list of records holds.
pub open spec fn records_view(records: Seq<CaptureRecord>) -> Seq<RecordView> {
    records.map_values(|r: CaptureRecord| r@)
}

impl View for HistoryIndex {
    type V = Seq<RecordView>;

    closed spec fn view(&self) -> Seq<RecordView> {
        records_view(self.records@)
    }
}

/// The last record of a path, whose casing does not matter. A path occurs more
/// than once where a capture was deleted and its name used again.
pub open spec fn latest(records: Seq<RecordView>, path: Seq<char>) -> Option<RecordView>
    decreases records.len(),
{
    if records.len() == 0 {
        None
    } else if crate::keys::lowered(records.last().path) == crate::keys::lowered(path) {
        Some(records.last())
    } else {
        latest(records.drop_last(), path)
    }
}

/// The records among the lines of an index. A line that holds none is passed over.
pub open spec fn readable_lines(lines: Seq<Option<CaptureRecord>>) -> Seq<RecordView>
    decreases lines.len(),
{
    if lines.len() == 0 {
        seq![]
    } else {
        let before = readable_lines(lines.drop_last());
        match lines.last() {
            Some(record) => before.push(record@),
            None => before,
        }
    }
}

/// Whether every hash leads to the last record that has it, and every record to the
/// one before it.
spec fn is_linked(places: Map<u64, usize>, earlier: Seq<Option<usize>>, keys: Seq<String>) -> bool {
    &&& earlier.len() == keys.len()
    &&& forall|i: int|
        0 <= i < keys.len() ==> #[trigger] earlier[i] == last_with(
            keys,
            crate::keys::path_hash(keys[i]@),
            i as nat,
        )
    &&& forall|hash: u64|
        match #[trigger] last_with(keys, hash, keys.len()) {
            Some(i) => places.contains_key(hash) && places[hash] == i,
            None => !places.contains_key(hash),
        }
}

/// Whether `keys` are the paths of `records` in lower case.
spec fn are_keys(keys: Seq<String>, records: Seq<CaptureRecord>) -> bool {
    &&& keys.len() == records.len()
    &&& forall|i: int|
        #![trigger records[i]]
        0 <= i < records.len() ==> keys[i]@ == crate::keys::lowered(records[i].path@)
}

impl HistoryIndex {
    #[verifier::type_invariant]
    closed spec fn valid(self) -> bool {
        &&& is_linked(self.places@, self.earlier@, self.keys@)
        &&& are_keys(self.keys@, self.records@)
    }

    /// Reads the lines of an index. A line that holds no record, such as one that
    /// was not written to its end, is passed over.
    pub fn load_index(lines: Vec<Option<CaptureRecord>>) -> (r: HistoryIndex)
        ensures
            r@ == readable_lines(lines@),
    {
        broadcast use vstd::std_specs::hash::group_hash_axioms;

        let mut places: HashMap<u64, usize> = HashMap::new();
        let mut earlier: Vec<Option<usize>> = Vec::new();
        let mut keys: Vec<String> = Vec::new();
        let mut records: Vec<CaptureRecord> = Vec::new();
        let ghost all = lines@;
        assert(all.take(0) =~= seq![]);
        for line in it: lines
            invariant
                it.seq() == all,
                records_view(records@) =~= readable_lines(all.take(it.index() as int)),
                is_linked(places@, earlier@, keys@),
                are_keys(keys@, records@),
        {
            broadcast use vstd::std_specs::hash::group_hash_axioms;

            proof {
                let n = it.index() as int;
                assert(all.take(n + 1).drop_last() =~= all.take(n));
                assert(all.take(n + 1).last() == line);
            }
            if let Some(record) = line {
                let key: String = lowercase(record.path.as_str());
                let hash: u64 = hash_text(key.as_str());
                let place: usize = keys.len();
                let before: Option<usize> = match places.get(&hash) {
                    Some(place) => Some(*place),
                    None => None,
                };
                let ghost old_places = places@;
                let ghost old_keys = keys@;
                let ghost old_earlier = earlier@;
                assert(before == last_with(old_keys, hash, old_keys.len()));
                places.insert(hash, place);
                earlier.push(before);
                keys.push(key);
                proof {
                    assert forall|i: int| 0 <= i < keys.len() implies #[trigger] earlier@[i]
                        == last_with(
                        keys@,
                        crate::keys::path_hash(keys@[i]@),
                        i as nat,
                    ) by {
                        lemma_last_with_push(
                            old_keys,
                            key,
                            crate::keys::path_hash(keys@[i]@),
                            i as nat,
                        );
                        if i < old_keys.len() {
                            assert(earlier@[i] == old_earlier[i]);
                        }
                    }
                    assert forall|h: u64|
                        match #[trigger] last_with(keys@, h, keys@.len()) {
                            Some(i) => places@.contains_key(h) && places@[h] == i,
                            None => !places@.contains_key(h),
                        } by {
                        lemma_last_with_push(old_keys, key, h, old_keys.len());
                        assert(match last_with(old_keys, h, old_keys.len()) {
                            Some(i) => old_places.contains_key(h) && old_places[h] == i,
                            None => !old_places.contains_key(h),
                        });
                    }
                }
                let ghost seen = records_view(records@);
                records.push(record);
                assert(records_view(records@) =~= seen.push(record@));
            }
        }
        assert(all.take(all.len() as int) =~= all);
        HistoryIndex { places, earlier, keys, records }
    }

    /// The last record of a path.
    pub fn find(&self, path: &str) -> (r: Option<&CaptureRecord>)
        ensures
            match r {
                Some(record) => latest(self@, path@) == Some(record@),
                None => latest(self@, path@) is None,
            },
    {
        broadcast use vstd::std_specs::hash::group_hash_axioms;

        proof {
            use_type_invariant(self);
        }
        let key: String = lowercase(path);
        let hash: u64 = hash_text(key.as_str());
        let mut at: Option<usize> = match self.places.get(&hash) {
            Some(place) => Some(*place),
            None => None,
        };
        let ghost mut n: int = self.keys.len() as int;
        assert(self@.take(n) =~= self@);
        assert(at == last_with(self.keys@, hash, n as nat));
        loop
            invariant
                self.valid(),
                0 <= n <= self.keys.len(),
                key@ == crate::keys::lowered(path@),
                hash == crate::keys::path_hash(key@),
                at == last_with(self.keys@, hash, n as nat),
                latest(self@, path@) == latest(self@.take(n), path@),
            decreases n,
        {
            proof {
                lemma_last_with(self.keys@, hash, n as nat);
                let from = match at {
                    Some(i) => i + 1,
                    None => 0,
                };
                assert forall|k: int| from <= k < n implies crate::keys::lowered(
                    (#[trigger] self@[k]).path,
                ) != crate::keys::lowered(path@) by {
                    assert(self.keys@[k]@ == crate::keys::lowered(self.records@[k].path@));
                }
                lemma_latest_skips(self@, path@, from, n);
            }
            match at {
                None => {
                    assert(self@.take(0) =~= seq![]);
                    return None;
                },
                Some(i) => {
                    proof {
                        assert(self@.take(i + 1).drop_last() =~= self@.take(i as int));
                        assert(self@.take(i + 1).last() == self.records@[i as int]@);
                        assert(self.keys@[i as int]@ == crate::keys::lowered(
                            self.records@[i as int].path@,
                        ));
                        assert(self.earlier@[i as int] == last_with(
                            self.keys@,
                            crate::keys::path_hash(self.keys@[i as int]@),
                            i as nat,
                        ));
                    }
                    if same(self.keys[i].as_str(), key.as_str()) {
                        return Some(&self.records[i]);
                    }
                    at = self.earlier[i];
                    proof {
                        n = i as int;
                    }
                },
            }
        }
    }
}

// ---------------------------------------------------------------------------
// Listing
// ---------------------------------------------------------------------------

/// What the system tells of something in the save folder.
#[derive(Debug)]
pub struct FileFacts {
    pub path: String,
    pub file_name: String,
    /// False for a folder, and for what the system tells nothing of.
    pub is_file: bool,
    /// In milliseconds since the start of 1970, or zero where that is unknown.
    pub modified_ms: u64,
    pub bytes: u64,
}

/// One capture in the library.
#[derive(Debug)]
pub struct HistoryEntry {
    pub path: String,
    pub file_name: String,
    /// In milliseconds since the start of 1970.
    pub taken_at_ms: u64,
    pub bytes: u64,
    /// Known to the index only, as are the next three.
    pub width: Option<u32>,
    pub height: Option<u32>,
    pub kind: Option<CaptureKind>,
    pub source: Option<String>,
    /// Where the thumbnail is asked for.
    pub thumbnail_url: String,
    /// Where the whole image is asked for.
    pub full_url: String,
}

/// What a [`HistoryEntry`] holds.
pub struct EntryView {
    pub path: Seq<char>,
    pub file_name: Seq<char>,
    pub taken_at_ms: u64,
    pub bytes: u64,
    pub width: Option<u32>,
    pub height: Option<u32>,
    pub kind: Option<CaptureKind>,
    pub source: Option<Seq<char>>,
    pub thumbnail_url: Seq<char>,
    pub full_url: Seq<char>,
}

impl View for HistoryEntry {
    type V = EntryView;

    open spec fn view(&self) -> EntryView {
        EntryView {
            path: self.path@,
            file_name: self.file_name@,
            taken_at_ms: self.taken_at_ms,
            bytes: self.bytes,
            width: self.width,
            height: self.height,
            kind: self.kind,
            source: crate::capture::text_view(self.source),
            thumbnail_url: self.thumbnail_url@,
            full_url: self.full_url@,
        }
    }
}

fn text_clone(s: &Option<String>) -> (r: Option<String>)
    ensures
        crate::capture::text_view(r) == crate::capture::text_view(*s),
{
    match s {
        Some(text) => Some(text.clone()),
        None => None,
    }
}

impl Clone for HistoryEntry {
    fn clone(&self) -> (r: Self)
        ensures
            r@ == self@,
    {
        HistoryEntry {
            path: self.path.clone(),
            file_name: self.file_name.clone(),
            taken_at_ms: self.taken_at_ms,
            bytes: self.bytes,
            width: self.width,
            height: self.height,
            kind: self.kind,
            source: text_clone(&self.source),
            thumbnail_url: self.thumbnail_url.clone(),
            full_url: self.full_url.clone(),
        }
    }
}

/// What to look for in the library.
#[derive(Debug)]
pub struct HistoryQuery {
    /// A part of the file's name, in any casing.
    pub search: Option<String>,
    /// The earliest time, in milliseconds since the start of 1970.
    pub from_ms: Option<u64>,
    /// The latest time.
    pub to_ms: Option<u64>,
    /// How many to leave out at the start.
    pub offset: Option<usize>,
    /// How many to give. All of them where this is not set.
    pub limit: Option<usize>,
}

impl Default for HistoryQuery {
    /// A query that every capture answers.
    fn default() -> (r: Self)
        ensures
            r.search is None,
            r.from_ms is None,
            r.to_ms is None,
            r.offset is None,
            r.limit is None,
    {
        HistoryQuery { search: None, from_ms: None, to_ms: None, offset: None, limit: None }
    }
}

/// A stretch of the library.
#[derive(Debug)]
pub struct HistoryPage {
    pub entries: Vec<HistoryEntry>,
    /// How many captures answer the query, on this page or not.
    pub total: usize,
}

/// Where pictures of a route are asked for.
pub open spec fn url_of(route: Seq<char>, key: Seq<char>) -> Seq<char> {
    "http://"@ + FRAME_SCHEME@ + ".localhost/"@ + route + "?k="@ + key
}

fn url_text(route: &str, key: &str) -> (r: String)
    ensures
        r@ == url_of(route@, key@),
{
    let mut url: String = "http://".to_owned();
    url.append(FRAME_SCHEME);
    url.append(".localhost/");
    url.append(route);
    url.append("?k=");
    url.append(key);
    url
}

/// Where the whole image of a key is asked for.
pub fn media_url(key: &str) -> (r: String)
    ensures
        r@ == url_of("full"@, key@),
{
    url_text("full", key)
}

/// The milliseconds of a moment as a number without a sign.
pub open spec fn unsigned_ms(ms: i64) -> u64 {
    if ms < 0 {
        0
    } else {
        ms as u64
    }
}

/// When a capture was taken: what the index says, else when its file was changed.
pub open spec fn taken_ms(file: FileFacts, record: Option<RecordView>) -> u64 {
    match record {
        Some(r) => match crate::clock::rfc3339_millis(r.taken_at) {
            Some(ms) => unsigned_ms(ms),
            None => file.modified_ms,
        },
        None => file.modified_ms,
    }
}

/// A file as the library shows it.
pub open spec fn entry_of(file: FileFacts, records: Seq<RecordView>) -> EntryView {
    let record = latest(records, file.path@);
    let key = crate::keys::spec_thumbnail_key(file.path@, file.modified_ms);
    EntryView {
        path: file.path@,
        file_name: file.file_name@,
        taken_at_ms: taken_ms(file, record),
        bytes: file.bytes,
        width: match record {
            Some(r) => Some(r.width),
            None => None,
        },
        height: match record {
            Some(r) => Some(r.height),
            None => None,
        },
        kind: match record {
            Some(r) => Some(r.kind),
            None => None,
        },
        source: match record {
            Some(r) => r.source,
            None => None,
        },
        thumbnail_url: url_of("thumb"@, key),
        full_url: url_of("full"@, key),
    }
}

/// Whether something in the save folder is a capture.
pub open spec fn is_capture(file: FileFacts) -> bool {
    spec_is_image(file.path@) && file.is_file
}

/// What a query looks for in names, in lower case.
pub open spec fn needle_of(query: &HistoryQuery) -> Seq<char> {
    match query.search {
        Some(search) => crate::keys::lowered(crate::text::trimmed(search@)),
        None => seq![],
    }
}

/// Whether a capture answers a query.
pub open spec fn answers_query(query: &HistoryQuery, entry: EntryView) -> bool {
    &&& needle_of(query).len() == 0 || crate::text::has_text(
        crate::keys::lowered(entry.file_name),
        needle_of(query),
    )
    &&& query.from_ms matches Some(from) ==> entry.taken_at_ms >= from
    &&& query.to_ms matches Some(to) ==> entry.taken_at_ms <= to
}

/// The captures that answer a query, in the order of the files.
pub open spec fn found(
    files: Seq<FileFacts>,
    records: Seq<RecordView>,
    query: &HistoryQuery,
) -> Seq<EntryView>
    decreases files.len(),
{
    if files.len() == 0 {
        seq![]
    } else {
        let before = found(files.drop_last(), records, query);
        let entry = entry_of(files.last(), records);
        if is_capture(files.last()) && answers_query(query, entry) {
            before.push(entry)
        } else {
            before
        }
    }
}

/// What captures are put in order by: the newest first.
pub open spec fn newest_keys(entries: Seq<EntryView>) -> Seq<Key> {
    entries.map_values(|e: EntryView| (-(e.taken_at_ms as int) as i128, 0i64, 0i64))
}

/// Where a page starts.
pub open spec fn page_start(query: &HistoryQuery, total: int) -> int {
    match query.offset {
        Some(offset) => if offset < total {
            offset as int
        } else {
            total
        },
        None => 0,
    }
}

/// Where a page ends.
pub open spec fn page_end(query: &HistoryQuery, total: int) -> int {
    match query.limit {
        Some(limit) => if page_start(query, total) + limit < total {
            page_start(query, total) + limit
        } else {
            total
        },
        None => total,
    }
}

/// Whether `page` is the stretch of `entries`, newest first, that a query asks for.
pub open spec fn is_page(
    entries: Seq<EntryView>,
    query: &HistoryQuery,
    page: HistoryPage,
) -> bool {
    let total = entries.len() as int;
    let start = page_start(query, total);
    exists|p: Seq<usize>|
        {
            &&& #[trigger] crate::order::is_stable_order(newest_keys(entries), p)
            &&& page.total == total
            &&& page.entries.len() == page_end(query, total) - start
            &&& forall|i: int|
                0 <= i < page.entries.len() ==> (#[trigger] page.entries@[i])@ == entries[p[start
                    + i] as int]
        }
}

/// The keys that are known once files have been listed.
pub open spec fn remembered(cache: Map<u64, Seq<char>>, files: Seq<FileFacts>) -> Map<
    u64,
    Seq<char>,
>
    decreases files.len(),
{
    if files.len() == 0 {
        cache
    } else {
        let before = remembered(cache, files.drop_last());
        let file = files.last();
        if is_capture(file) {
            before.insert(
                crate::keys::key_number(file.path@, file.modified_ms),
                file.path@,
            )
        } else {
            before
        }
    }
}

/// Shows a file with what the index knows of it.
fn describe(file: &FileFacts, index: &HistoryIndex) -> (r: HistoryEntry)
    ensures
        r@ == entry_of(*file, index@),
{
    let key: String = thumbnail_key(file.path.as_str(), file.modified_ms);
    let thumbnail_url: String = url_text("thumb", key.as_str());
    let full_url: String = url_text("full", key.as_str());
    match index.find(file.path.as_str()) {
        Some(record) => {
            let taken_at_ms: u64 = match parse_rfc3339(record.taken_at.as_str()) {
                Some(ms) => if ms < 0 {
                    0
                } else {
                    ms as u64
                },
                None => file.modified_ms,
            };
            HistoryEntry {
                path: file.path.clone(),
                file_name: file.file_name.clone(),
                taken_at_ms,
                bytes: file.bytes,
                width: Some(record.width),
                height: Some(record.height),
                kind: Some(record.kind),
                source: text_clone(&record.source),
                thumbnail_url,
                full_url,
            }
        },
        None => HistoryEntry {
            path: file.path.clone(),
            file_name: file.file_name.clone(),
            taken_at_ms: file.modified_ms,
            bytes: file.bytes,
            width: None,
            height: None,
            kind: None,
            source: None,
            thumbnail_url,
            full_url,
        },
    }
}

fn needle_text(query: &HistoryQuery) -> (r: String)
    ensures
        r@ == needle_of(query),
{
    match &query.search {
        Some(search) => {
            let bare: String = trim(search.as_str());
            lowercase(bare.as_str())
        },
        None => String::new(),
    }
}

fn answers(query: &HistoryQuery, needle: &str, entry: &HistoryEntry) -> (r: bool)
    requires
        needle@ == needle_of(query),
    ensures
        r == answers_query(query, entry@),
{
    if !needle.is_empty() {
        let name: String = lowercase(entry.file_name.as_str());
        if !contains(name.as_str(), needle) {
            return false;
        }
    }
    if let Some(from) = query.from_ms {
        if entry.taken_at_ms < from {
            return false;
        }
    }
    if let Some(to) = query.to_ms {
        if entry.taken_at_ms > to {
            return false;
        }
    }
    true
}

/// What a list of entries holds.
pub open spec fn entries_view(entries: Seq<HistoryEntry>) -> Seq<EntryView> {
    entries.map_values(|e: HistoryEntry| e@)
}

/// Puts captures in order and cuts out the page that a query asks for.
fn page_of(entries: Vec<HistoryEntry>, query: &HistoryQuery) -> (r: HistoryPage)
    ensures
        is_page(entries_view(entries@), query, r),
{
    let ghost views = entries_view(entries@);
    let mut keys: Vec<Key> = Vec::new();
    let mut i: usize = 0;
    while i < entries.len()
        invariant
            0 <= i <= entries.len(),
            keys.len() == i,
            forall|j: int|
                0 <= j < i ==> #[trigger] keys@[j] == (
                    -(entries@[j]@.taken_at_ms as int) as i128,
                    0i64,
                    0i64,
                ),
        decreases entries.len() - i,
    {
        keys.push((-(entries[i].taken_at_ms as i128), 0, 0));
        i += 1;
    }
    assert(keys@ =~= newest_keys(views));
    let p: Vec<usize> = stable_order(&keys);
    let total: usize = entries.len();
    let start: usize = match query.offset {
        Some(offset) => if offset < total {
            offset
        } else {
            total
        },
        None => 0,
    };
    let end: usize = match query.limit {
        Some(limit) => if limit < total - start {
            start + limit
        } else {
            total
        },
        None => total,
    };
    let mut page: Vec<HistoryEntry> = Vec::new();
    let mut n: usize = start;
    while n < end
        invariant
            start <= n <= end <= total,
            total == entries.len(),
            views == entries_view(entries@),
            p.len() == total,
            crate::order::is_stable_order(newest_keys(views), p@),
            page.len() == n - start,
            forall|j: int|
                0 <= j < page.len() ==> (#[trigger] page@[j])@ == views[p@[start + j] as int],
        decreases end - n,
    {
        page.push(entries[p[n]].clone());
        n += 1;
    }
    HistoryPage { entries: page, total }
}

/// Lists the captures that answer a query, newest first.
///
/// `files` is what there is in the save folder, or nothing where there is no such
/// folder, which is no failure. The keys of all captures are remembered, whether
/// they answer the query or not.
pub fn list(
    query: &HistoryQuery,
    files: Option<&Vec<FileFacts>>,
    index: &HistoryIndex,
    cache: &mut KeyCache,
) -> (r: HistoryPage)
    ensures
        match files {
            Some(files) => {
                &&& is_page(found(files@, index@, query), query, r)
                &&& final(cache)@ == remembered(old(cache)@, files@)
            },
            None => {
                &&& r.entries.len() == 0
                &&& r.total == 0
                &&& final(cache)@ == old(cache)@
            },
        },
{
    let files: &Vec<FileFacts> = match files {
        Some(files) => files,
        None => {
            return HistoryPage { entries: Vec::new(), total: 0 };
        },
    };
    let needle: String = needle_text(query);
    let mut entries: Vec<HistoryEntry> = Vec::new();
    let mut i: usize = 0;
    assert(files@.take(0) =~= seq![]);
    while i < files.len()
        invariant
            0 <= i <= files.len(),
            needle@ == needle_of(query),
            entries_view(entries@) =~= found(files@.take(i as int), index@, query),
            cache@ == remembered(old(cache)@, files@.take(i as int)),
        decreases files.len() - i,
    {
        proof {
            assert(files@.take(i + 1).drop_last() =~= files@.take(i as int));
            assert(files@.take(i + 1).last() == files@[i as int]);
        }
        let file: &FileFacts = &files[i];
        if file.is_file && is_image(file.path.as_str()) {
            cache.remember(file.path.as_str(), file.modified_ms);
            let entry: HistoryEntry = describe(file, index);
            if answers(query, needle.as_str(), &entry) {
                let ghost before = entries_view(entries@);
                entries.push(entry);
                assert(entries_view(entries@) =~= before.push(entry@));
            }
        }
        i += 1;
    }
    assert(files@.take(i as int) =~= files@);
    page_of(entries, query)
}

/// How much there is in the library.
#[derive(Debug, Clone, Copy, PartialEq, Eq, Structural)]
pub struct LibraryStats {
    pub count: usize,
    /// As far as that can be counted.
    pub bytes: u64,
}

/// The bytes of captures.
pub open spec fn bytes_of(entries: Seq<HistoryEntry>) -> nat
    decreases entries.len(),
{
    if entries.len() == 0 {
        0
    } else {
        bytes_of(entries.drop_last()) + entries.last().bytes as nat
    }
}

/// Sums up a page of the library.
pub fn stats(page: &HistoryPage) -> (r: LibraryStats)
    ensures
        r.count == page.total,
        r.bytes == if bytes_of(page.entries@) > u64::MAX {
            u64::MAX as nat
        } else {
            bytes_of(page.entries@)
        },
{
    let mut bytes: u64 = 0;
    let mut i: usize = 0;
    assert(page.entries@.take(0) =~= seq![]);
    while i < page.entries.len()
        invariant
            0 <= i <= page.entries.len(),
            bytes == if bytes_of(page.entries@.take(i as int)) > u64::MAX {
                u64::MAX as nat
            } else {
                bytes_of(page.entries@.take(i as int))
            },
        decreases page.entries.len() - i,
    {
        proof {
            assert(page.entries@.take(i + 1).drop_last() =~= page.entries@.take(i as int));
            assert(page.entries@.take(i + 1).last() == page.entries@[i as int]);
        }
        let more: u64 = page.entries[i].bytes;
        bytes = if more > u64::MAX - bytes {
            u64::MAX
        } else {
            bytes + more
        };
        i += 1;
    }
    assert(page.entries@.take(i as int) =~= page.entries@);
    LibraryStats { count: page.total, bytes }
}

// ---------------------------------------------------------------------------
// From keys to files
// ---------------------------------------------------------------------------

/// Whether a file is a capture of this key.
pub open spec fn has_key(file: FileFacts, key: Seq<char>) -> bool {
    is_capture(file) && crate::keys::spec_thumbnail_key(file.path@, file.modified_ms) == key
}

/// Whether a file lies in a folder itself, not in one below it.
pub open spec fn lies_in(file: FileFacts, directory: Seq<char>, separator: char) -> bool {
    &&& file.path@ == crate::config::joined(directory, file.file_name@, separator)
    &&& forall|i: int| 0 <= i < file.file_name@.len() ==> !is_separator(#[trigger] file.file_name@[i])
}

/// Whether a file is the capture of a key in a folder.
pub open spec fn belongs(
    file: FileFacts,
    key: Seq<char>,
    directory: Seq<char>,
    separator: char,
) -> bool {
    has_key(file, key) && lies_in(file, directory, separator)
}

/// The place of the first capture of a key in a folder, or the number of files where
/// there is none.
pub open spec fn key_place(
    files: Seq<FileFacts>,
    key: Seq<char>,
    directory: Seq<char>,
    separator: char,
) -> int
    decreases files.len(),
{
    if files.len() == 0 || belongs(files[0], key, directory, separator) {
        0
    } else {
        1 + key_place(files.skip(1), key, directory, separator)
    }
}

/// Whether a cache keeps a path under a key.
pub open spec fn is_cached(cache: Map<u64, Seq<char>>, key: Seq<char>, path: Seq<char>) -> bool {
    exists|n: u64| #[trigger]
        crate::keys::is_key_of(key, n) && cache.contains_key(n) && cache[n] == path
}

/// Whether looking at a path can give this answer.
pub open spec fn looks_like<L: FnOnce(&String) -> Option<FileFacts>>(
    look: L,
    path: Seq<char>,
    answer: Option<FileFacts>,
) -> bool {
    exists|s: String| s@ == path && #[trigger] look.ensures((&s,), answer)
}

/// Whether an answer tells of the capture of a key at a path in a folder.
pub open spec fn tells_of(
    answer: Option<FileFacts>,
    path: Seq<char>,
    key: Seq<char>,
    directory: Seq<char>,
    separator: char,
) -> bool {
    answer matches Some(file) && file.path@ == path && belongs(file, key, directory, separator)
}

/// Whether a key was not answered from a cache: either nothing is kept under it, or
/// there is no capture of that key any more at the path that is kept.
pub open spec fn is_missed<L: FnOnce(&String) -> Option<FileFacts>>(
    cache: Map<u64, Seq<char>>,
    key: Seq<char>,
    directory: Seq<char>,
    separator: char,
    look: L,
) -> bool {
    ||| forall|n: u64| #[trigger] crate::keys::is_key_of(key, n) ==> !cache.contains_key(n)
    ||| exists|path: Seq<char>, answer: Option<FileFacts>|
        is_cached(cache, key, path) && #[trigger] looks_like(look, path, answer) && !tells_of(
            answer,
            path,
            key,
            directory,
            separator,
        )
}

/// Whether the capture that a key belongs to in a folder is at `found`, with what a
/// cache keeps before and after.
pub open spec fn is_answered<
    L: FnOnce(&String) -> Option<FileFacts>,
    S: FnOnce() -> Option<Vec<FileFacts>>,
>(
    key: Seq<char>,
    directory: Seq<char>,
    separator: char,
    look: L,
    scan: S,
    before: Map<u64, Seq<char>>,
    after: Map<u64, Seq<char>>,
    found: Option<Seq<char>>,
) -> bool {
    match found {
        Some(path) => {
            ||| {
                &&& is_cached(before, key, path)
                &&& after == before
                &&& exists|answer: Option<FileFacts>| #[trigger]
                    looks_like(look, path, answer) && tells_of(
                        answer,
                        path,
                        key,
                        directory,
                        separator,
                    )
            }
            ||| {
                &&& is_missed(before, key, directory, separator, look)
                &&& exists|files: Vec<FileFacts>|
                    {
                        let k = key_place(files@, key, directory, separator);
                        &&& #[trigger] scan.ensures((), Some(files))
                        &&& k < files.len()
                        &&& path == files@[k].path@
                        &&& after == before.insert(
                            crate::keys::key_number(path, files@[k].modified_ms),
                            path,
                        )
                    }
            }
        },
        None => {
            &&& is_missed(before, key, directory, separator, look)
            &&& after == before
            &&& exists|files: Option<Vec<FileFacts>>|
                {
                    &&& #[trigger] scan.ensures((), files)
                    &&& files matches Some(list) ==> key_place(list@, key, directory, separator)
                        == list.len()
                }
        },
    }
}

/// Whether a name has no separator in it.
fn is_plain_name(name: &str) -> (r: bool)
    ensures
        r == (forall|i: int| 0 <= i < name@.len() ==> !is_separator(#[trigger] name@[i])),
{
    let chars: Vec<char> = chars_of(name);
    let mut i: usize = 0;
    while i < chars.len()
        invariant
            0 <= i <= chars.len(),
            chars@ == name@,
            forall|k: int| 0 <= k < i ==> !is_separator(#[trigger] name@[k]),
        decreases chars.len() - i,
    {
        if chars[i] == '/' || chars[i] == '\\' {
            assert(is_separator(name@[i as int]));
            return false;
        }
        i += 1;
    }
    true
}

/// Whether a file is the capture of a key in a folder.
fn is_belonging(file: &FileFacts, key: &str, directory: &str, separator: char) -> (r: bool)
    ensures
        r == belongs(*file, key@, directory@, separator),
{
    if !file.is_file || !is_image(file.path.as_str()) {
        return false;
    }
    if !is_plain_name(file.file_name.as_str()) {
        return false;
    }
    let own: String = join_path(directory, file.file_name.as_str(), separator);
    if !same(own.as_str(), file.path.as_str()) {
        return false;
    }
    let own_key: String = thumbnail_key(file.path.as_str(), file.modified_ms);
    same(own_key.as_str(), key)
}

/// Finds the capture that a key belongs to in the save folder.
///
/// Only what is in the folder now can be found. What the cache keeps is `look`ed at,
/// and used where it is still the capture of that key in that folder. Otherwise the
/// folder is looked through with `scan`, which gives nothing where there is no such
/// folder. `look` gives what the system tells of a path, or nothing where nothing is
/// there.
pub fn resolve_thumbnail_key<
    L: FnOnce(&String) -> Option<FileFacts>,
    S: FnOnce() -> Option<Vec<FileFacts>>,
>(
    key: &str,
    directory: &str,
    separator: char,
    cache: &mut KeyCache,
    look: L,
    scan: S,
) -> (r: Option<String>)
    requires
        forall|s: String| #[trigger] look.requires((&s,)),
        scan.requires(()),
    ensures
        is_answered(
            key@,
            directory@,
            separator,
            look,
            scan,
            old(cache)@,
            final(cache)@,
            crate::capture::text_view(r),
        ),
{
    if let Some(path) = cache.get(key) {
        let answer: Option<FileFacts> = look(&path);
        assert(looks_like(look, path@, answer));
        assert(is_cached(cache@, key@, path@));
        if let Some(file) = &answer {
            if same(file.path.as_str(), path.as_str()) && is_belonging(
                file,
                key,
                directory,
                separator,
            ) {
                assert(looks_like(look, path@, answer) && tells_of(
                    answer,
                    path@,
                    key@,
                    directory@,
                    separator,
                ));
                let found: Option<String> = Some(path);
                assert(crate::capture::text_view(found) == Some(path@));
                return found;
            }
        }
        assert(!tells_of(answer, path@, key@, directory@, separator));
        assert(is_missed(cache@, key@, directory@, separator, look));
    }
    let listed: Option<Vec<FileFacts>> = scan();
    assert(scan.ensures((), listed));
    let files: Vec<FileFacts> = match listed {
        Some(files) => files,
        None => {
            return None;
        },
    };
    let mut i: usize = 0;
    assert(files@.skip(0) =~= files@);
    while i < files.len()
        invariant
            0 <= i <= files.len(),
            is_missed(old(cache)@, key@, directory@, separator, look),
            scan.ensures((), Some(files)),
            cache@ == old(cache)@,
            key_place(files@, key@, directory@, separator) == i + key_place(
                files@.skip(i as int),
                key@,
                directory@,
                separator,
            ),
        decreases files.len() - i,
    {
        assert(files@.skip(i as int)[0] == files@[i as int]);
        let file: &FileFacts = &files[i];
        if is_belonging(file, key, directory, separator) {
            cache.remember(file.path.as_str(), file.modified_ms);
            return Some(file.path.clone());
        }
        assert(files@.skip(i as int).skip(1) =~= files@.skip(i + 1));
        i += 1;
    }
    None
}

/// The index of captures.
pub fn index_path(data_directory: &str, separator: char) -> (r: String)
    ensures
        r@ == crate::config::joined(data_directory@, "history.jsonl"@, separator),
{
    join_path(data_directory, "history.jsonl", separator)
}

/// The folder that thumbnails are kept in.
pub fn thumbnail_dir(data_directory: &str, separator: char) -> (r: String)
    ensures
        r@ == crate::config::joined(data_directory@, "thumbs"@, separator),
{
    join_path(data_directory, "thumbs", separator)
}

/// The name of the file that a thumbnail is kept in.
pub fn thumbnail_file(key: &str) -> (r: String)
    ensures
        r@ == key@ + ".jpg"@,
{
    let mut name: String = key.to_owned();
    name.append(".jpg");
    name
}

/// The key of a file as it is now, where the system can tell when it was changed.
pub fn key_for(path: &str, modified_ms: Option<u64>) -> (r: Option<String>)
    ensures
        match modified_ms {
            Some(ms) => r matches Some(key) && key@ == crate::keys::spec_thumbnail_key(path@, ms),
            None => r is None,
        },
{
    match modified_ms {
        Some(ms) => Some(thumbnail_key(path, ms)),
        None => None,
    }
}

/// A thumbnail.
#[derive(Debug)]
pub struct Thumbnail {
    pub bytes: Vec<u8>,
    /// Whether it was made just now and is to be kept.
    pub is_new: bool,
}

/// Whether `r` is the new thumbnail of a file of these bytes.
pub open spec fn is_thumbnail_of(
    bytes: Seq<u8>,
    format: ImageFormat,
    path: Seq<char>,
    r: Result<Thumbnail, String>,
) -> bool {
    match crate::capture::pixels::picture_in(bytes, format) {
        Ok(image) => {
            &&& r matches Ok(made)
            &&& made.is_new
            &&& crate::capture::pixels::thumbnail_of(image) == Ok::<Seq<u8>, Seq<char>>(
                made.bytes@,
            )
            &&& crate::capture::pixels::is_thumbnail_file(made.bytes@)
        },
        Err(e) => r matches Err(words) && words@ == crate::capture::pixels::unreadable_message(
            path,
            e,
        ),
    }
}

/// The thumbnail of a capture: the one that is kept, else a new one.
///
/// `read` reads the capture's file.
pub fn thumbnail<R: FnOnce() -> Result<Vec<u8>, String>>(
    path: &str,
    format: ImageFormat,
    kept: Option<Vec<u8>>,
    read: R,
) -> (r: Result<Thumbnail, String>)
    requires
        read.requires(()),
    ensures
        match kept {
            Some(bytes) => r matches Ok(t) && t.bytes == bytes && !t.is_new,
            None => exists|file: Result<Vec<u8>, String>|
                {
                    &&& #[trigger] read.ensures((), file)
                    &&& match file {
                        Ok(bytes) => is_thumbnail_of(bytes@, format, path@, r),
                        Err(why) => r matches Err(e) && e@ == crate::capture::pixels::unreadable_message(
                            path@,
                            why@,
                        ),
                    }
                },
        },
        kept is None ==> exists|file: Result<Vec<u8>, String>|
            {
                &&& #[trigger] read.ensures((), file)
                &&& file is Err ==> r is Err && r->Err_0@ == "decoding "@ + path@ + ": "@
                    + file->Err_0@
                &&& file is Ok ==> {
                    let picture = if format is Png {
                        crate::capture::pixels::png_picture(file->Ok_0@)
                    } else {
                        crate::capture::pixels::jpeg_picture(file->Ok_0@)
                    };
                    let small = crate::capture::pixels::shrunk(
                        picture->Ok_0.pixels,
                        picture->Ok_0.width,
                        picture->Ok_0.height,
                        400,
                    );
                    &&& picture is Err ==> r is Err && r->Err_0@ == "decoding "@ + path@ + ": "@
                        + picture->Err_0
                    &&& picture is Ok ==> r is Ok && r->Ok_0.is_new
                        && crate::capture::pixels::jpeg_file(small.0, small.1, small.2, 78) == Ok::<
                        Seq<u8>,
                        Seq<char>,
                    >(r->Ok_0.bytes@)
                }
            },
{
    if let Some(bytes) = kept {
        return Ok(Thumbnail { bytes, is_new: false });
    }
    let file: Result<Vec<u8>, String> = read();
    assert(read.ensures((), file));
    match &file {
        Ok(bytes) => fresh_thumbnail(bytes, format, path),
        Err(why) => {
            let mut message: String = "decoding ".to_owned();
            message.append(path);
            message.append(": ");
            message.append(why.as_str());
            Err(message)
        },
    }
}

/// Makes the thumbnail of a file.
fn fresh_thumbnail(bytes: &Vec<u8>, format: ImageFormat, path: &str) -> (r: Result<
    Thumbnail,
    String,
>)
    ensures
        is_thumbnail_of(bytes@, format, path@, r),
{
    match make_thumbnail(bytes, format, path) {
        Ok(bytes) => Ok(Thumbnail { bytes, is_new: true }),
        Err(e) => Err(e),
    }
}

// ---------------------------------------------------------------------------
// Keeping to the save folder
// ---------------------------------------------------------------------------

/// What is about to be done to a file.
#[derive(Debug, Clone, Copy, PartialEq, Eq, Structural)]
pub enum Change {
    Delete,
    Rename,
    Write,
}

/// What the parts of a path hold.
pub open spec fn parts_view(parts: Seq<String>) -> Seq<Seq<char>> {
    parts.map_values(|s: String| s@)
}

/// Whether a path lies within a folder, both given by their parts.
pub open spec fn is_inside(root: Seq<Seq<char>>, path: Seq<Seq<char>>) -> bool {
    root.len() <= path.len() && path.take(root.len() as int) == root
}

/// Whether a path lies within a folder.
fn inside(root: &Vec<String>, path: &Vec<String>) -> (r: bool)
    ensures
        r == is_inside(parts_view(root@), parts_view(path@)),
{
    if root.len() > path.len() {
        return false;
    }
    let mut i: usize = 0;
    while i < root.len()
        invariant
            0 <= i <= root.len() <= path.len(),
            forall|k: int| 0 <= k < i ==> (#[trigger] root@[k])@ == path@[k]@,
        decreases root.len() - i,
    {
        if !same(root[i].as_str(), path[i].as_str()) {
            proof {
                let n = root.len() as int;
                assert(parts_view(path@).take(n)[i as int] == path@[i as int]@);
                assert(parts_view(root@)[i as int] == root@[i as int]@);
            }
            return false;
        }
        i += 1;
    }
    assert(parts_view(path@).take(root.len() as int) =~= parts_view(root@));
    true
}

/// The words for a file that lies outside the save folder.
pub open spec fn refusal(change: Change) -> Seq<char> {
    match change {
        Change::Delete => "refusing to delete a file outside the save folder"@,
        Change::Rename => "refusing to rename a file outside the save folder"@,
        Change::Write => "refusing to write outside the save folder"@,
    }
}

pub open spec fn gone_message(shown: Seq<char>) -> Seq<char> {
    shown + " no longer exists"@
}

pub open spec fn no_folder_message(why: Seq<char>) -> Seq<char> {
    "save folder is unavailable: "@ + why
}

/// What is said to a change, or nothing where it may be made. A deletion looks at
/// the file first, the others at the folder.
pub open spec fn objection(
    change: Change,
    shown: Seq<char>,
    path: Option<Seq<Seq<char>>>,
    root: Result<Seq<Seq<char>>, Seq<char>>,
) -> Option<Seq<char>> {
    match (path, root) {
        (Some(path), Ok(root)) => if is_inside(root, path) {
            None
        } else {
            Some(refusal(change))
        },
        (None, Ok(_)) => Some(gone_message(shown)),
        (Some(_), Err(why)) => Some(no_folder_message(why)),
        (None, Err(why)) => Some(
            if change is Delete {
                gone_message(shown)
            } else {
                no_folder_message(why)
            },
        ),
    }
}

/// The words for a file that is not there any more.
pub fn gone_text(shown: &str) -> (r: String)
    ensures
        r@ == gone_message(shown@),
{
    let mut out: String = shown.to_owned();
    out.append(" no longer exists");
    out
}

fn no_folder_text(why: &str) -> (r: String)
    ensures
        r@ == no_folder_message(why@),
{
    let mut out: String = "save folder is unavailable: ".to_owned();
    out.append(why);
    out
}

/// Whether a change to a file may be made.
///
/// `path` is the file's path with every link resolved, or nothing where there is
/// no such file. `root` is that of the save folder, or why there is none. `shown`
/// is what the user calls the file.
pub fn guard(
    change: Change,
    shown: &str,
    path: Option<&Vec<String>>,
    root: Result<&Vec<String>, String>,
) -> (r: Result<(), String>)
    ensures
        ({
            let said = objection(
                change,
                shown@,
                match path {
                    Some(p) => Some(parts_view(p@)),
                    None => None,
                },
                match root {
                    Ok(p) => Ok(parts_view(p@)),
                    Err(why) => Err(why@),
                },
            );
            match r {
                Ok(_) => said is None,
                Err(words) => said == Some(words@),
            }
        }),
{
    match path {
        Some(path) => match root {
            Ok(root) => {
                if inside(root, path) {
                    return Ok(());
                }
                Err(
                    match change {
                        Change::Delete => {
                            "refusing to delete a file outside the save folder".to_owned()
                        },
                        Change::Rename => {
                            "refusing to rename a file outside the save folder".to_owned()
                        },
                        Change::Write => "refusing to write outside the save folder".to_owned(),
                    },
                )
            },
            Err(why) => Err(no_folder_text(why.as_str())),
        },
        None => match root {
            Ok(_) => Err(gone_text(shown)),
            Err(why) => match change {
                Change::Delete => Err(gone_text(shown)),
                _ => Err(no_folder_text(why.as_str())),
            },
        },
    }
}

/// A path with every link resolved.
#[derive(Debug)]
pub struct ResolvedPath {
    pub path: String,
    pub parts: Vec<String>,
}

/// What to do to delete a capture.
#[derive(Debug)]
pub struct Removal {
    /// The file to move to the Recycle Bin.
    pub path: String,
    /// The file of its thumbnail, to be removed where there is one.
    pub thumbnail: Option<String>,
}

/// Decides on the deletion of a capture and of the thumbnail that is kept of it.
///
/// `file`, `root` and `shown` are those of [`guard`], and `modified_ms` is when the
/// file was last changed, where the system can tell.
pub fn delete(
    shown: &str,
    file: Option<&ResolvedPath>,
    root: Result<&Vec<String>, String>,
    modified_ms: Option<u64>,
) -> (r: Result<Removal, String>)
    ensures
        ({
            let said = objection(
                Change::Delete,
                shown@,
                match file {
                    Some(f) => Some(parts_view(f.parts@)),
                    None => None,
                },
                match root {
                    Ok(p) => Ok(parts_view(p@)),
                    Err(why) => Err(why@),
                },
            );
            match r {
                Ok(removal) => {
                    &&& said is None
                    &&& file matches Some(f) && removal.path@ == f.path@
                    &&& crate::capture::text_view(removal.thumbnail) == match modified_ms {
                        Some(ms) => Some(
                            crate::keys::spec_thumbnail_key(shown@, ms) + ".jpg"@,
                        ),
                        None => None,
                    }
                },
                Err(words) => said == Some(words@),
            }
        }),
{
    let parts: Option<&Vec<String>> = match file {
        Some(f) => Some(&f.parts),
        None => None,
    };
    if let Err(words) = guard(Change::Delete, shown, parts, root) {
        return Err(words);
    }
    let path: String = match file {
        Some(f) => f.path.clone(),
        None => String::new(),
    };
    let thumbnail: Option<String> = match key_for(shown, modified_ms) {
        Some(key) => Some(thumbnail_file(key.as_str())),
        None => None,
    };
    Ok(Removal { path, thumbnail })
}

/// Whether a capture is older than it may become. A day has 86,400,000
/// milliseconds.
pub open spec fn is_expired(taken_at_ms: u64, now_ms: u64, days: u32) -> bool {
    taken_at_ms + days * 86_400_000 < now_ms
}

pub fn expired(taken_at_ms: u64, now_ms: u64, days: u32) -> (r: bool)
    ensures
        r == is_expired(taken_at_ms, now_ms, days),
        r <==> now_ms - taken_at_ms > days * 86_400_000,
{
    (taken_at_ms as u128) + (days as u128) * 86_400_000 < now_ms as u128
}

// ---------------------------------------------------------------------------
// Laws
// ---------------------------------------------------------------------------

/// A page lists captures from the newest to the oldest.
pub proof fn pages_are_newest_first(
    entries: Seq<EntryView>,
    query: &HistoryQuery,
    page: HistoryPage,
    i: int,
    j: int,
)
    requires
        is_page(entries, query, page),
        0 <= i < j < page.entries.len(),
    ensures
        page.entries@[i]@.taken_at_ms >= page.entries@[j]@.taken_at_ms,
{
    let start = page_start(query, entries.len() as int);
    let keys = newest_keys(entries);
    let p = choose|p: Seq<usize>|
        {
            &&& #[trigger] crate::order::is_stable_order(keys, p)
            &&& page.total == entries.len()
            &&& page.entries.len() == page_end(query, entries.len() as int) - start
            &&& forall|i: int|
                0 <= i < page.entries.len() ==> (#[trigger] page.entries@[i])@ == entries[p[start
                    + i] as int]
        };
    let a = p[start + i] as int;
    let b = p[start + j] as int;
    assert(crate::order::place_before(keys, a, b));
    assert(page.entries@[i]@ == entries[a]);
    assert(page.entries@[j]@ == entries[b]);
}

/// A page is a stretch of the whole list, and tells how long that is.
pub proof fn a_page_is_a_stretch_of_the_whole(
    entries: Seq<EntryView>,
    all: &HistoryQuery,
    whole: HistoryPage,
    query: &HistoryQuery,
    page: HistoryPage,
)
    requires
        all.offset is None,
        all.limit is None,
        is_page(entries, all, whole),
        is_page(entries, query, page),
    ensures
        whole.entries.len() == entries.len(),
        page.total == whole.entries.len(),
        entries_view(page.entries@) == entries_view(whole.entries@).subrange(
            page_start(query, entries.len() as int),
            page_end(query, entries.len() as int),
        ),
{
    let total = entries.len() as int;
    let start = page_start(query, total);
    let keys = newest_keys(entries);
    let p = choose|p: Seq<usize>|
        {
            &&& #[trigger] crate::order::is_stable_order(keys, p)
            &&& whole.total == total
            &&& whole.entries.len() == page_end(all, total) - page_start(all, total)
            &&& forall|i: int|
                0 <= i < whole.entries.len() ==> (#[trigger] whole.entries@[i])@
                    == entries[p[page_start(all, total) + i] as int]
        };
    let q = choose|q: Seq<usize>|
        {
            &&& #[trigger] crate::order::is_stable_order(keys, q)
            &&& page.total == total
            &&& page.entries.len() == page_end(query, total) - start
            &&& forall|i: int|
                0 <= i < page.entries.len() ==> (#[trigger] page.entries@[i])@ == entries[q[start
                    + i] as int]
        };
    crate::order::stable_order_is_unique(keys, p, q);
    let left = entries_view(page.entries@);
    let right = entries_view(whole.entries@).subrange(start, page_end(query, total));
    assert(left.len() == right.len());
    assert forall|i: int| 0 <= i < left.len() implies left[i] == right[i] by {
        assert(page.entries@[i]@ == entries[q[start + i] as int]);
        assert(whole.entries@[start + i]@ == entries[p[start + i] as int]);
    }
    assert(left =~= right);
}

/// Pages that follow one another make up the whole list: none is missed, none
/// comes twice.
pub proof fn pages_follow_one_another(total: int, size: usize, first: &HistoryQuery, second:
    &HistoryQuery)
    requires
        first.limit == Some(size),
        first.offset matches Some(offset) && offset + size <= usize::MAX && second.offset == Some(
            (offset + size) as usize,
        ),
        0 <= total,
    ensures
        page_end(first, total) == page_start(second, total),
{
}

/// A query without filters finds every capture in the save folder, whether the
/// index knows it or not.
pub proof fn every_capture_is_listed(
    files: Seq<FileFacts>,
    records: Seq<RecordView>,
    query: &HistoryQuery,
    i: int,
)
    requires
        0 <= i < files.len(),
        is_capture(files[i]),
        needle_of(query).len() == 0,
        query.from_ms is None,
        query.to_ms is None,
    ensures
        found(files, records, query).contains(entry_of(files[i], records)),
    decreases files.len(),
{
    let entry = entry_of(files[i], records);
    let all = found(files, records, query);
    let before = found(files.drop_last(), records, query);
    if i < files.len() - 1 {
        every_capture_is_listed(files.drop_last(), records, query, i);
        let k = choose|k: int| 0 <= k < before.len() && before[k] == entry;
        assert(all[k] == entry);
    } else {
        assert(all[all.len() - 1] == entry);
    }
}

/// The paths of captures.
pub open spec fn paths_of(entries: Seq<EntryView>) -> Seq<Seq<char>> {
    entries.map_values(|e: EntryView| e.path)
}

/// A search finds the same captures whatever the index says: to lose the index is to
/// lose no capture.
pub proof fn the_index_hides_nothing(
    files: Seq<FileFacts>,
    records: Seq<RecordView>,
    others: Seq<RecordView>,
    query: &HistoryQuery,
)
    requires
        query.from_ms is None,
        query.to_ms is None,
    ensures
        paths_of(found(files, records, query)) == paths_of(found(files, others, query)),
    decreases files.len(),
{
    if files.len() > 0 {
        let before = files.drop_last();
        the_index_hides_nothing(before, records, others, query);
        let a = found(before, records, query);
        let b = found(before, others, query);
        if is_capture(files.last()) && answers_query(query, entry_of(files.last(), records)) {
            assert(paths_of(found(files, records, query)) =~= paths_of(a).push(
                files.last().path@,
            ));
            assert(paths_of(found(files, others, query)) =~= paths_of(b).push(
                files.last().path@,
            ));
        }
    }
}

/// A name without separators starts where the folder ends, or before that.
proof fn lemma_name_start(folder: Seq<char>, name: Seq<char>, verbatim: bool)
    requires
        forall|i: int| 0 <= i < name.len() ==> !is_separator(#[trigger] name[i]),
    ensures
        0 <= name_start(folder + name, verbatim) <= folder.len(),
    decreases folder.len() + name.len(),
{
    let path = folder + name;
    if name.len() > 0 {
        assert(path.last() == name[name.len() - 1]);
        assert(path.drop_last() =~= folder + name.drop_last());
        lemma_name_start(folder, name.drop_last(), verbatim);
    } else if folder.len() > 0 && !divides(folder.last(), verbatim) {
        assert(path =~= folder);
        assert(path.drop_last() =~= folder.drop_last() + name);
        lemma_name_start(folder.drop_last(), name, verbatim);
    }
}

/// The last full stop of a name stands before an extension that has none.
proof fn lemma_last_dot(base: Seq<char>, extension: Seq<char>)
    requires
        forall|i: int| 0 <= i < extension.len() ==> #[trigger] extension[i] != '.',
    ensures
        last_dot(base + seq!['.'] + extension) == base.len(),
    decreases extension.len(),
{
    let name = base + seq!['.'] + extension;
    if extension.len() == 0 {
        assert(name.last() == '.');
    } else {
        assert(name.last() == extension[extension.len() - 1]);
        assert(name.drop_last() =~= base + seq!['.'] + extension.drop_last());
        lemma_last_dot(base, extension.drop_last());
    }
}

/// A file whose name ends in the extension of a format is an image of that format.
proof fn lemma_image_name(folder: Seq<char>, base: Seq<char>, format: ImageFormat)
    requires
        base.len() > 0,
        forall|i: int|
            0 <= i < crate::naming::dotted(base, format.spec_extension()).len() ==> !is_separator(
                #[trigger] crate::naming::dotted(base, format.spec_extension())[i],
            ),
        0 <= volume_end(folder + crate::naming::dotted(base, format.spec_extension()))
            <= folder.len(),
    ensures
        spec_format_of(folder + crate::naming::dotted(base, format.spec_extension())) == Some(
            format,
        ),
{
    reveal_strlit(".");
    reveal_strlit("png");
    reveal_strlit("jpg");
    reveal_strlit("jpeg");
    let extension = format.spec_extension();
    let name = crate::naming::dotted(base, extension);
    let path = folder + name;
    let verbatim = is_verbatim(path);
    let volume = volume_end(path);
    let rest = path.skip(volume);
    assert(name =~= base + seq!['.'] + extension);
    assert(name.last() == extension.last());
    assert(rest.last() == extension.last());
    assert(bare_path(rest, verbatim) == rest);
    assert(rest =~= folder.skip(volume) + name);
    lemma_name_start(folder.skip(volume), name, verbatim);
    let start = name_start(rest, verbatim);
    let whole = rest.skip(start);
    let longer = folder.skip(volume).skip(start) + base;
    assert(whole =~= longer + seq!['.'] + extension);
    assert(whole.last() == extension.last());
    assert(spec_file_name(path) == whole);
    lemma_last_dot(longer, extension);
    assert(whole.skip(longer.len() as int + 1) =~= extension);
    assert(crate::text::ascii_lowered(extension) =~= extension);
    assert("png"@[0] != "jpg"@[0]);
    assert(spec_extension_of(path) == Some(extension));
}

/// A capture that is saved is a capture that is listed: whatever name was found for
/// it, its file is an image of the format it was saved in. The folder has to be one:
/// a server without a share is not, and the name would be taken for the share.
pub proof fn saved_captures_are_listed<F: Fn(&String) -> bool>(
    probe: F,
    naming: crate::config::NamingView,
    at: &crate::clock::LocalTime,
    stamp: Seq<char>,
    format: ImageFormat,
    name: ResolvedName,
    folder: Seq<char>,
    separator: char,
    file: FileFacts,
)
    requires
        crate::naming::is_resolved(
            probe,
            naming,
            crate::naming::stem_of(naming, at),
            stamp,
            format.spec_extension(),
            name,
        ),
        crate::naming::all_legal(name.file_name@),
        file.path@ == crate::config::joined(folder, name.file_name@, separator),
        volume_end(file.path@) + name.file_name@.len() <= file.path@.len(),
        file.is_file,
    ensures
        is_capture(file),
        spec_format_of(file.path@) == Some(format),
{
    let base = crate::naming::resolved_names_have_the_extension(
        probe,
        naming,
        at,
        stamp,
        format.spec_extension(),
        name,
    );
    assert forall|i: int| 0 <= i < name.file_name@.len() implies !is_separator(
        #[trigger] name.file_name@[i],
    ) by {
        assert(!crate::naming::is_illegal(name.file_name@[i]));
    }
    let start = file.path@.take(file.path@.len() - name.file_name@.len());
    assert(file.path@ =~= start + name.file_name@);
    lemma_volume_end(file.path@);
    lemma_image_name(start, base, format);
}

/// A volume ends within its path.
proof fn lemma_volume_end(path: Seq<char>)
    ensures
        0 <= volume_end(path) <= path.len(),
{
    lemma_part_end(path, 8, true);
    lemma_part_end(path, 4, true);
    lemma_part_end(path, 4, false);
    lemma_part_end(path, 2, false);
    lemma_part_end(path, part_end(path, 8, true) + 1, true);
    lemma_part_end(path, part_end(path, 2, false) + 1, false);
}

proof fn lemma_part_end(path: Seq<char>, from: int, verbatim: bool)
    ensures
        0 <= from <= path.len() ==> from <= part_end(path, from, verbatim) <= path.len(),
    decreases path.len() - from,
{
    if 0 <= from < path.len() && !divides(path[from], verbatim) {
        lemma_part_end(path, from + 1, verbatim);
    }
}

/// Only captures in the save folder are found, and only those that answer the
/// query.
pub proof fn only_captures_are_listed(
    files: Seq<FileFacts>,
    records: Seq<RecordView>,
    query: &HistoryQuery,
    k: int,
)
    requires
        0 <= k < found(files, records, query).len(),
    ensures
        answers_query(query, found(files, records, query)[k]),
        exists|i: int|
            0 <= i < files.len() && is_capture(#[trigger] files[i]) && found(
                files,
                records,
                query,
            )[k] == entry_of(files[i], records),
    decreases files.len(),
{
    let before = found(files.drop_last(), records, query);
    if k < before.len() {
        only_captures_are_listed(files.drop_last(), records, query, k);
        let i = choose|i: int|
            0 <= i < files.len() - 1 && is_capture(#[trigger] files.drop_last()[i]) && before[k]
                == entry_of(files.drop_last()[i], records);
        assert(files[i] == files.drop_last()[i]);
    } else {
        let i = files.len() - 1;
        assert(is_capture(files[i]));
    }
}

/// What the index said last of a path is what it says.
pub proof fn the_last_record_counts(records: Seq<RecordView>, record: RecordView, path: Seq<char>)
    requires
        crate::keys::lowered(record.path) == crate::keys::lowered(path),
    ensures
        latest(records.push(record), path) == Some(record),
{
    assert(records.push(record).last() == record);
}

/// A line that was not written to its end hides no other.
pub proof fn bad_lines_are_passed_over(
    before: Seq<Option<CaptureRecord>>,
    after: Seq<Option<CaptureRecord>>,
)
    ensures
        readable_lines(before + seq![None::<CaptureRecord>] + after) == readable_lines(
            before + after,
        ),
    decreases after.len(),
{
    let bad = seq![None::<CaptureRecord>];
    if after.len() == 0 {
        assert((before + bad + after).drop_last() =~= before);
        assert(before + after =~= before);
        assert((before + bad + after).last() is None);
    } else {
        bad_lines_are_passed_over(before, after.drop_last());
        assert((before + bad + after).drop_last() =~= before + bad + after.drop_last());
        assert((before + after).drop_last() =~= before + after.drop_last());
    }
}

/// A capture is listed at the time that its record tells, to the millisecond.
pub proof fn captures_keep_their_time(
    file: FileFacts,
    records: Seq<RecordView>,
    record: RecordView,
    ms: i64,
)
    requires
        latest(records, file.path@) == Some(record),
        crate::clock::rfc3339_millis(record.taken_at) == Some(ms),
        ms >= 0,
    ensures
        entry_of(file, records).taken_at_ms == ms,
        entry_of(file, records).kind == Some(record.kind),
{
}

/// Listing remembers the keys of captures only, each with the capture's path.
pub proof fn only_captures_are_remembered(files: Seq<FileFacts>, n: u64)
    requires
        remembered(Map::empty(), files).contains_key(n),
    ensures
        exists|i: int|
            0 <= i < files.len() && is_capture(#[trigger] files[i]) && crate::keys::key_number(
                files[i].path@,
                files[i].modified_ms,
            ) == n && remembered(Map::empty(), files)[n] == files[i].path@,
    decreases files.len(),
{
    if files.len() > 0 {
        let before = files.drop_last();
        let last = files.last();
        if is_capture(last) && crate::keys::key_number(last.path@, last.modified_ms) == n {
            assert(files[files.len() - 1] == last);
        } else {
            only_captures_are_remembered(before, n);
            let i = choose|i: int|
                0 <= i < before.len() && is_capture(#[trigger] before[i])
                    && crate::keys::key_number(before[i].path@, before[i].modified_ms) == n
                    && remembered(Map::empty(), before)[n] == before[i].path@;
            assert(files[i] == before[i]);
        }
    }
}

/// A scan answers a key with a capture of that key, the first one, and answers
/// with nothing only where there is none.
pub proof fn a_key_belongs_to_its_capture(
    files: Seq<FileFacts>,
    key: Seq<char>,
    directory: Seq<char>,
    separator: char,
)
    ensures
        ({
            let k = key_place(files, key, directory, separator);
            &&& 0 <= k <= files.len()
            &&& k < files.len() ==> belongs(files[k], key, directory, separator)
            &&& forall|i: int|
                0 <= i < k ==> !belongs(#[trigger] files[i], key, directory, separator)
        }),
    decreases files.len(),
{
    if files.len() > 0 && !belongs(files[0], key, directory, separator) {
        let rest = files.skip(1);
        a_key_belongs_to_its_capture(rest, key, directory, separator);
        assert forall|i: int|
            0 <= i < key_place(files, key, directory, separator) implies !belongs(
            #[trigger] files[i],
            key,
            directory,
            separator,
        ) by {
            if i > 0 {
                assert(rest[i - 1] == files[i]);
            }
        }
    }
}

/// Whether looking at one path and looking through the folder tell of the same
/// files.
pub open spec fn is_one_folder<
    L: FnOnce(&String) -> Option<FileFacts>,
    S: FnOnce() -> Option<Vec<FileFacts>>,
>(directory: Seq<char>, separator: char, look: L, scan: S) -> bool {
    forall|s: String, file: FileFacts, files: Option<Vec<FileFacts>>|
        #[trigger] look.ensures((&s,), Some(file)) && lies_in(file, directory, separator)
            && #[trigger] scan.ensures((), files) ==> (files matches Some(list) && list@.contains(
            file,
        ))
}

/// A key is answered with nothing but an image in the save folder that it is the key
/// of, whatever was listed before and in whatever folder.
pub proof fn only_the_save_folder_is_answered_from<
    L: FnOnce(&String) -> Option<FileFacts>,
    S: FnOnce() -> Option<Vec<FileFacts>>,
>(
    key: Seq<char>,
    directory: Seq<char>,
    separator: char,
    look: L,
    scan: S,
    before: Map<u64, Seq<char>>,
    after: Map<u64, Seq<char>>,
    path: Seq<char>,
) -> (file: FileFacts)
    requires
        is_answered(key, directory, separator, look, scan, before, after, Some(path)),
    ensures
        file.path@ == path,
        belongs(file, key, directory, separator),
        looks_like(look, path, Some(file)) || exists|files: Vec<FileFacts>| #[trigger]
            scan.ensures((), Some(files)) && files@.contains(file),
{
    if exists|answer: Option<FileFacts>| #[trigger]
        looks_like(look, path, answer) && tells_of(answer, path, key, directory, separator) {
        let answer = choose|answer: Option<FileFacts>| #[trigger]
            looks_like(look, path, answer) && tells_of(answer, path, key, directory, separator);
        answer->0
    } else {
        let files = choose|files: Vec<FileFacts>|
            {
                let k = key_place(files@, key, directory, separator);
                &&& #[trigger] scan.ensures((), Some(files))
                &&& k < files.len()
                &&& path == files@[k].path@
                &&& after == before.insert(
                    crate::keys::key_number(path, files@[k].modified_ms),
                    path,
                )
            };
        a_key_belongs_to_its_capture(files@, key, directory, separator);
        files@[key_place(files@, key, directory, separator)]
    }
}

/// A key that belongs to no file that is in the save folder now is answered with
/// nothing.
pub proof fn a_key_of_no_file_is_not_answered<
    L: FnOnce(&String) -> Option<FileFacts>,
    S: FnOnce() -> Option<Vec<FileFacts>>,
>(
    key: Seq<char>,
    directory: Seq<char>,
    separator: char,
    look: L,
    scan: S,
    before: Map<u64, Seq<char>>,
    after: Map<u64, Seq<char>>,
    found: Option<Seq<char>>,
    files: Option<Vec<FileFacts>>,
)
    requires
        is_one_folder(directory, separator, look, scan),
        scan.ensures((), files),
        forall|listed: Option<Vec<FileFacts>>| #[trigger] scan.ensures((), listed) ==> listed
            == files,
        files matches Some(list) ==> forall|i: int|
            0 <= i < list.len() ==> !has_key(#[trigger] list@[i], key),
        is_answered(key, directory, separator, look, scan, before, after, found),
    ensures
        found is None,
{
    if let Some(path) = found {
        let file = only_the_save_folder_is_answered_from(
            key,
            directory,
            separator,
            look,
            scan,
            before,
            after,
            path,
        );
        if looks_like(look, path, Some(file)) {
            let s = choose|s: String| s@ == path && #[trigger] look.ensures((&s,), Some(file));
            assert(look.ensures((&s,), Some(file)) && scan.ensures((), files));
        }
        assert(files matches Some(list) && list@.contains(file));
        let list = files->0;
        let i = choose|i: int| 0 <= i < list.len() && list@[i] == file;
        assert(has_key(list@[i], key));
    }
}

/// Nothing outside the save folder is ever changed.
pub proof fn nothing_outside_is_changed(
    change: Change,
    shown: Seq<char>,
    path: Option<Seq<Seq<char>>>,
    root: Result<Seq<Seq<char>>, Seq<char>>,
)
    requires
        objection(change, shown, path, root) is None,
    ensures
        path matches Some(p) && root matches Ok(r) && is_inside(r, p),
{
}

/// A new thumbnail is the JPEG file, at a quality of 78, of the file's picture scaled
/// to fit a square of 400 pixels a side. A file that cannot be read gives words that
/// name it.
pub proof fn a_new_thumbnail_shows_its_file(
    bytes: Seq<u8>,
    format: ImageFormat,
    path: Seq<char>,
    r: Result<Thumbnail, String>,
)
    requires
        is_thumbnail_of(bytes, format, path, r),
    ensures
        ({
            let picture = if format is Png {
                crate::capture::pixels::png_picture(bytes)
            } else {
                crate::capture::pixels::jpeg_picture(bytes)
            };
            let small = crate::capture::pixels::shrunk(
                picture->Ok_0.pixels,
                picture->Ok_0.width,
                picture->Ok_0.height,
                400,
            );
            &&& picture is Ok ==> r is Ok && r->Ok_0.is_new && crate::capture::pixels::jpeg_file(
                small.0,
                small.1,
                small.2,
                78,
            ) == Ok::<Seq<u8>, Seq<char>>(r->Ok_0.bytes@)
            &&& picture is Err ==> r is Err && r->Err_0@ == "decoding "@ + path + ": "@
                + picture->Err_0
        }),
{
}

/// A capture is too old once more milliseconds have passed than its days have,
/// however many days those are.
pub proof fn captures_grow_too_old_by_the_day(taken_at_ms: u64, now_ms: u64, days: u32)
    ensures
        is_expired(taken_at_ms, now_ms, days) <==> now_ms - taken_at_ms > days * (24 * 60 * 60
            * 1000),
        is_expired(taken_at_ms, now_ms, days) ==> now_ms > taken_at_ms,
{
}

/// A file is found exactly where it is an image, its name holds what is searched for
/// at some place, both in lower case and the search without white space round it,
/// and it was taken within the times that are asked for. A search that is left out
/// is held by every name. What is found comes in the order of the files.
pub proof fn a_search_finds_what_holds_it(
    files: Seq<FileFacts>,
    file: FileFacts,
    records: Seq<RecordView>,
    query: &HistoryQuery,
)
    ensures
        found(Seq::empty(), records, query) == Seq::<EntryView>::empty(),
        ({
            let name = crate::keys::lowered(file.file_name@);
            let wanted = crate::keys::lowered(crate::text::trimmed(query.search->0@));
            let entry = entry_of(file, records);
            let matched = {
                &&& spec_is_image(file.path@)
                &&& file.is_file
                &&& query.search is Some ==> exists|k: int|
                    0 <= k <= name.len() - wanted.len() && #[trigger] name.subrange(
                        k,
                        k + wanted.len(),
                    ) == wanted
                &&& query.from_ms is Some ==> query.from_ms->0 <= entry.taken_at_ms
                &&& query.to_ms is Some ==> entry.taken_at_ms <= query.to_ms->0
            };
            &&& matched ==> found(files.push(file), records, query) == found(
                files,
                records,
                query,
            ).push(entry)
            &&& !matched ==> found(files.push(file), records, query) == found(
                files,
                records,
                query,
            )
        }),
{
    let name = crate::keys::lowered(file.file_name@);
    let wanted = crate::keys::lowered(crate::text::trimmed(query.search->0@));
    assert(files.push(file).drop_last() =~= files);
    crate::text::texts_are_found_anywhere(name, wanted, 0);
    crate::text::texts_are_found_anywhere(name, needle_of(query), 0);
}

/// In a folder, where no two files have the same path, a capture is listed exactly
/// where its name holds what is searched for at some place and its time lies within
/// the times that are asked for.
pub proof fn a_listed_capture_holds_the_search(
    files: Seq<FileFacts>,
    records: Seq<RecordView>,
    query: &HistoryQuery,
    i: int,
)
    requires
        0 <= i < files.len(),
        forall|j: int|
            0 <= j < files.len() && j != i ==> (#[trigger] files[j]).path@ != files[i].path@,
    ensures
        ({
            let file = files[i];
            let name = crate::keys::lowered(file.file_name@);
            let wanted = crate::keys::lowered(crate::text::trimmed(query.search->0@));
            let taken = entry_of(file, records).taken_at_ms;
            found(files, records, query).contains(entry_of(file, records)) <==> {
                &&& spec_is_image(file.path@)
                &&& file.is_file
                &&& query.search is Some ==> exists|k: int|
                    0 <= k <= name.len() - wanted.len() && #[trigger] name.subrange(
                        k,
                        k + wanted.len(),
                    ) == wanted
                &&& query.from_ms is Some ==> query.from_ms->0 <= taken
                &&& query.to_ms is Some ==> taken <= query.to_ms->0
            }
        }),
    decreases files.len(),
{
    let fewer = files.drop_last();
    let last = files.last();
    let entry = entry_of(files[i], records);
    let before = found(fewer, records, query);
    let all = found(files, records, query);
    a_search_finds_what_holds_it(fewer, last, records, query);
    assert(fewer.push(last) =~= files);
    if i < fewer.len() {
        assert(fewer[i] == files[i]);
        assert forall|j: int| 0 <= j < fewer.len() && j != i implies (#[trigger] fewer[j]).path@
            != fewer[i].path@ by {
            assert(fewer[j] == files[j]);
        }
        a_listed_capture_holds_the_search(fewer, records, query, i);
        assert(files[files.len() - 1] == last);
        assert(entry_of(last, records) != entry);
        if before.contains(entry) {
            let k = choose|k: int| 0 <= k < before.len() && before[k] == entry;
            assert(all[k] == entry);
        }
        if all.contains(entry) {
            let k = choose|k: int| 0 <= k < all.len() && all[k] == entry;
            assert(before[k] == entry);
        }
    } else {
        if before.contains(entry) {
            let k = choose|k: int| 0 <= k < before.len() && before[k] == entry;
            only_captures_are_listed(fewer, records, query, k);
            let j = choose|j: int|
                0 <= j < fewer.len() && is_capture(#[trigger] fewer[j]) && before[k] == entry_of(
                    fewer[j],
                    records,
                );
            assert(files[j] == fewer[j]);
        }
        if all.len() > before.len() {
            assert(all[all.len() - 1] == entry);
        }
    }
}

/// A capture is shown with the path, the name and the size of its file, with what the
/// index knows of it, and with the two addresses of its key. Its time is the one that
/// the index tells, where that can be read, and no earlier than 1970, else the time
/// of the file.
pub proof fn a_capture_is_shown_as_it_is_known(file: FileFacts, records: Seq<RecordView>)
    ensures
        ({
            let entry = entry_of(file, records);
            let known = latest(records, file.path@);
            let key = crate::keys::spec_thumbnail_key(file.path@, file.modified_ms);
            let told = crate::clock::rfc3339_millis(known->0.taken_at);
            &&& entry.path == file.path@
            &&& entry.file_name == file.file_name@
            &&& entry.bytes == file.bytes
            &&& known is Some ==> entry.width == Some(known->0.width) && entry.height == Some(
                known->0.height,
            ) && entry.kind == Some(known->0.kind) && entry.source == known->0.source
            &&& known is None ==> entry.width is None && entry.height is None && entry.kind is None
                && entry.source is None && entry.taken_at_ms == file.modified_ms
            &&& known is Some && told is None ==> entry.taken_at_ms == file.modified_ms
            &&& known is Some && told is Some && told->0 >= 0 ==> entry.taken_at_ms == told->0
            &&& known is Some && told is Some && told->0 < 0 ==> entry.taken_at_ms == 0
            &&& entry.thumbnail_url == "http://"@ + "snipd"@ + ".localhost/"@ + "thumb"@ + "?k="@
                + key
            &&& entry.full_url == "http://"@ + "snipd"@ + ".localhost/"@ + "full"@ + "?k="@ + key
        }),
{
}

/// What the index says of a path is its last record of that path in any casing.
pub proof fn the_index_tells_the_last_record(records: Seq<RecordView>, path: Seq<char>, k: int)
    ensures
        latest(records, path) is None <==> forall|i: int|
            0 <= i < records.len() ==> crate::keys::lowered((#[trigger] records[i]).path)
                != crate::keys::lowered(path),
        0 <= k < records.len() && crate::keys::lowered(records[k].path) == crate::keys::lowered(
            path,
        ) && (forall|i: int|
            k < i < records.len() ==> crate::keys::lowered((#[trigger] records[i]).path)
                != crate::keys::lowered(path)) ==> latest(records, path) == Some(records[k]),
    decreases records.len(),
{
    if records.len() > 0 {
        let fewer = records.drop_last();
        the_index_tells_the_last_record(fewer, path, k);
        assert forall|i: int| 0 <= i < fewer.len() implies #[trigger] fewer[i] == records[i] by {}
        assert forall|i: int| 0 <= i < fewer.len() implies #[trigger] records[i] == fewer[i] by {}
        assert(records.last() == records[records.len() - 1]);
    }
}

/// The lines of an index are read in order, each as the record that it holds.
pub proof fn lines_are_read_in_order(
    lines: Seq<Option<CaptureRecord>>,
    record: CaptureRecord,
)
    ensures
        readable_lines(Seq::empty()) == Seq::<RecordView>::empty(),
        readable_lines(lines.push(Some(record))) == readable_lines(lines).push(record@),
        readable_lines(lines.push(None)) == readable_lines(lines),
{
    assert(lines.push(Some(record)).drop_last() =~= lines);
    assert(lines.push(None).drop_last() =~= lines);
}

/// A page starts after as many captures as are left out and holds as many as are
/// asked for, as far as there are any.
pub proof fn a_page_is_cut_where_asked(query: &HistoryQuery, total: int)
    requires
        0 <= total,
    ensures
        query.offset is None ==> page_start(query, total) == 0,
        query.offset is Some && query.offset->0 <= total ==> page_start(query, total)
            == query.offset->0,
        query.offset is Some && query.offset->0 > total ==> page_start(query, total) == total,
        query.limit is None ==> page_end(query, total) == total,
        query.limit is Some && page_start(query, total) + query.limit->0 <= total ==> page_end(
            query,
            total,
        ) == page_start(query, total) + query.limit->0,
        query.limit is Some && page_start(query, total) + query.limit->0 > total ==> page_end(
            query,
            total,
        ) == total,
{
}

/// A page is what stands between its start and its end once the captures are put in
/// order: the newest first, those of one time as they came. Gives where each capture
/// of that order came from.
pub proof fn a_page_holds_the_newest_in_order(
    entries: Seq<EntryView>,
    query: &HistoryQuery,
    page: HistoryPage,
) -> (p: Seq<usize>)
    requires
        is_page(entries, query, page),
    ensures
        page.total == entries.len(),
        page.entries.len() == page_end(query, entries.len() as int) - page_start(
            query,
            entries.len() as int,
        ),
        p.len() == entries.len(),
        p.no_duplicates(),
        forall|i: int| 0 <= i < p.len() ==> (#[trigger] p[i]) < entries.len(),
        forall|i: int, j: int|
            #![trigger p[i], p[j]]
            0 <= i < j < p.len() ==> entries[p[i] as int].taken_at_ms
                > entries[p[j] as int].taken_at_ms || (entries[p[i] as int].taken_at_ms
                == entries[p[j] as int].taken_at_ms && p[i] < p[j]),
        forall|i: int|
            0 <= i < page.entries.len() ==> (#[trigger] page.entries@[i])@ == entries[p[page_start(
                query,
                entries.len() as int,
            ) + i] as int],
{
    let total = entries.len() as int;
    let start = page_start(query, total);
    let keys = newest_keys(entries);
    let p = choose|p: Seq<usize>|
        {
            &&& #[trigger] crate::order::is_stable_order(keys, p)
            &&& page.total == total
            &&& page.entries.len() == page_end(query, total) - start
            &&& forall|i: int|
                0 <= i < page.entries.len() ==> (#[trigger] page.entries@[i])@ == entries[p[start
                    + i] as int]
        };
    crate::order::lemma_all_places(keys, p);
    assert forall|i: int, j: int|
        #![trigger p[i], p[j]]
        0 <= i < j < p.len() implies entries[p[i] as int].taken_at_ms
        > entries[p[j] as int].taken_at_ms || (entries[p[i] as int].taken_at_ms
        == entries[p[j] as int].taken_at_ms && p[i] < p[j]) by {
        assert(crate::order::place_before(keys, p[i] as int, p[j] as int));
        assert(keys[p[i] as int].0 == -(entries[p[i] as int].taken_at_ms as int));
        assert(keys[p[j] as int].0 == -(entries[p[j] as int].taken_at_ms as int));
    }
    p
}

/// Listing keeps each capture's path under its key, the later one where two share a
/// key, and forgets nothing else.
pub proof fn listing_remembers_each_capture(
    cache: Map<u64, Seq<char>>,
    files: Seq<FileFacts>,
    file: FileFacts,
)
    ensures
        remembered(cache, Seq::empty()) == cache,
        spec_is_image(file.path@) && file.is_file ==> remembered(cache, files.push(file))
            == remembered(cache, files).insert(
            crate::keys::key_number(file.path@, file.modified_ms),
            file.path@,
        ),
        !(spec_is_image(file.path@) && file.is_file) ==> remembered(cache, files.push(file))
            == remembered(cache, files),
{
    assert(files.push(file).drop_last() =~= files);
}

/// The bytes of captures are added up, and lists hold what their items hold.
pub proof fn lists_hold_what_their_items_hold(
    entries: Seq<HistoryEntry>,
    entry: HistoryEntry,
    records: Seq<CaptureRecord>,
    i: int,
)
    ensures
        bytes_of(Seq::empty()) == 0,
        bytes_of(entries.push(entry)) == bytes_of(entries) + entry.bytes,
        entries_view(entries).len() == entries.len(),
        records_view(records).len() == records.len(),
        0 <= i < entries.len() ==> entries_view(entries)[i] == entries[i]@,
        0 <= i < records.len() ==> records_view(records)[i] == records[i]@,
{
    assert(entries.push(entry).drop_last() =~= entries);
}

/// A file is the capture of a key in a folder where it is an image whose path and
/// time make that key, and its path is that of its name in the folder itself.
pub proof fn a_capture_has_its_key_and_folder(
    file: FileFacts,
    key: Seq<char>,
    directory: Seq<char>,
    separator: char,
)
    ensures
        belongs(file, key, directory, separator) <==> {
            &&& spec_is_image(file.path@)
            &&& file.is_file
            &&& key == crate::keys::spec_thumbnail_key(file.path@, file.modified_ms)
            &&& file.path@ == crate::config::joined(directory, file.file_name@, separator)
            &&& !file.file_name@.contains('/')
            &&& !file.file_name@.contains('\\')
        },
{
    let name = file.file_name@;
    if lies_in(file, directory, separator) {
        if name.contains('/') {
            let i = choose|i: int| 0 <= i < name.len() && name[i] == '/';
            assert(!is_separator(name[i]));
        }
        if name.contains('\\') {
            let i = choose|i: int| 0 <= i < name.len() && name[i] == '\\';
            assert(!is_separator(name[i]));
        }
    }
    if !name.contains('/') && !name.contains('\\') {
        assert forall|i: int| 0 <= i < name.len() implies !is_separator(#[trigger] name[i]) by {
            assert(name.contains(name[i]));
        }
    }
}

/// A capture that is kept under its key, and still is the capture of that key in the
/// folder, is the answer, and nothing is looked through.
pub proof fn a_kept_capture_is_the_answer<
    L: FnOnce(&String) -> Option<FileFacts>,
    S: FnOnce() -> Option<Vec<FileFacts>>,
>(
    key: Seq<char>,
    directory: Seq<char>,
    separator: char,
    look: L,
    scan: S,
    before: Map<u64, Seq<char>>,
    after: Map<u64, Seq<char>>,
    found: Option<Seq<char>>,
    n: u64,
)
    requires
        is_answered(key, directory, separator, look, scan, before, after, found),
        key == crate::text::hex(n as nat, 16),
        before.contains_key(n),
        forall|s: String, answer: Option<FileFacts>|
            s@ == before[n] && #[trigger] look.ensures((&s,), answer) ==> answer is Some
                && answer->0.path@ == before[n] && belongs(
                answer->0,
                key,
                directory,
                separator,
            ),
    ensures
        found == Some(before[n]),
        after == before,
{
    assert(crate::keys::is_key_of(key, n));
    assert(!is_missed(before, key, directory, separator, look)) by {
        if is_missed(before, key, directory, separator, look) {
            let (path, answer) = choose|path: Seq<char>, answer: Option<FileFacts>|
                is_cached(before, key, path) && #[trigger] looks_like(look, path, answer)
                    && !tells_of(answer, path, key, directory, separator);
            let m = choose|m: u64| #[trigger]
                crate::keys::is_key_of(key, m) && before.contains_key(m) && before[m] == path;
            crate::keys::a_key_stands_for_one_number(key, m, n);
            let s = choose|s: String| s@ == path && #[trigger] look.ensures((&s,), answer);
            assert(s@ == before[n]);
        }
    }
    if let Some(path) = found {
        let m = choose|m: u64| #[trigger]
            crate::keys::is_key_of(key, m) && before.contains_key(m) && before[m] == path;
        crate::keys::a_key_stands_for_one_number(key, m, n);
    }
}

/// Where the answer does not come from what is kept, it is the first capture of the
/// key in the folder, which is kept from then on, and there is no answer only where
/// the folder has none. Then nothing is kept that was not before.
pub proof fn an_answer_is_the_first_in_the_folder<
    L: FnOnce(&String) -> Option<FileFacts>,
    S: FnOnce() -> Option<Vec<FileFacts>>,
>(
    key: Seq<char>,
    directory: Seq<char>,
    separator: char,
    look: L,
    scan: S,
    before: Map<u64, Seq<char>>,
    after: Map<u64, Seq<char>>,
    found: Option<Seq<char>>,
) -> (files: Option<Vec<FileFacts>>)
    requires
        is_answered(key, directory, separator, look, scan, before, after, found),
    ensures
        found is None ==> after == before && scan.ensures((), files) && (files is Some
            ==> forall|i: int|
            0 <= i < files->0@.len() ==> !belongs(
                #[trigger] files->0@[i],
                key,
                directory,
                separator,
            )),
        found is Some && after != before ==> scan.ensures((), files) && files is Some
            && exists|k: int|
            {
                &&& 0 <= k < files->0@.len()
                &&& found == Some((#[trigger] files->0@[k]).path@)
                &&& belongs(files->0@[k], key, directory, separator)
                &&& forall|i: int|
                    0 <= i < k ==> !belongs(#[trigger] files->0@[i], key, directory, separator)
                &&& after == before.insert(
                    crate::keys::key_number(found->0, files->0@[k].modified_ms),
                    found->0,
                )
            },
{
    match found {
        None => {
            let files = choose|files: Option<Vec<FileFacts>>|
                {
                    &&& #[trigger] scan.ensures((), files)
                    &&& files matches Some(list) ==> key_place(list@, key, directory, separator)
                        == list.len()
                };
            if let Some(list) = files {
                a_key_belongs_to_its_capture(list@, key, directory, separator);
            }
            files
        },
        Some(path) => {
            if after == before {
                None
            } else {
                let files = choose|files: Vec<FileFacts>|
                    {
                        let k = key_place(files@, key, directory, separator);
                        &&& #[trigger] scan.ensures((), Some(files))
                        &&& k < files.len()
                        &&& path == files@[k].path@
                        &&& after == before.insert(
                            crate::keys::key_number(path, files@[k].modified_ms),
                            path,
                        )
                    };
                a_key_belongs_to_its_capture(files@, key, directory, separator);
                let k = key_place(files@, key, directory, separator);
                assert(found == Some(files@[k].path@));
                Some(files)
            }
        },
    }
}

/// A change is allowed exactly where the file is there, the folder is there, and the
/// parts of the file's path start with those of the folder's. Otherwise the words say
/// what is wrong, and a deletion looks at the file first.
pub proof fn changes_stay_in_the_folder(
    change: Change,
    shown: Seq<char>,
    path: Option<Seq<Seq<char>>>,
    root: Result<Seq<Seq<char>>, Seq<char>>,
)
    ensures
        objection(change, shown, path, root) is None <==> (path is Some && root is Ok
            && path->0.len() >= root->Ok_0.len() && forall|i: int|
            0 <= i < root->Ok_0.len() ==> #[trigger] path->0[i] == root->Ok_0[i]),
        path is Some && root is Ok && objection(change, shown, path, root) is Some ==> objection(
            change,
            shown,
            path,
            root,
        )->0 == match change {
            Change::Delete => "refusing to delete a file outside the save folder"@,
            Change::Rename => "refusing to rename a file outside the save folder"@,
            Change::Write => "refusing to write outside the save folder"@,
        },
        path is None && (root is Ok || change is Delete) ==> objection(change, shown, path, root)
            == Some(shown + " no longer exists"@),
        root is Err && (path is Some || change !is Delete) ==> objection(change, shown, path, root)
            == Some("save folder is unavailable: "@ + root->Err_0),
{
    if path is Some && root is Ok {
        let p = path->0;
        let r = root->Ok_0;
        if is_inside(r, p) {
            assert forall|i: int| 0 <= i < r.len() implies #[trigger] p[i] == r[i] by {
                assert(p.take(r.len() as int)[i] == r[i]);
            }
        }
        if p.len() >= r.len() && forall|i: int| 0 <= i < r.len() ==> #[trigger] p[i] == r[i] {
            assert(p.take(r.len() as int) =~= r);
        }
    }
}

/// Which characters divide a path. A slash does not where the path is taken word for
/// word.
pub proof fn paths_are_divided(c: char, path: Seq<char>)
    ensures
        is_separator(c) <==> c == '\\' || c == '/',
        divides(c, true) <==> c == '\\',
        divides(c, false) <==> c == '\\' || c == '/',
        is_verbatim(path) <==> path.len() >= 4 && path.take(4) == seq!['\\', '\\', '?', '\\'],
{
    if path.len() >= 4 {
        let head = path.take(4);
        assert(head[0] == path[0] && head[1] == path[1] && head[2] == path[2] && head[3]
            == path[3]);
        let start = seq!['\\', '\\', '?', '\\'];
        if is_verbatim(path) {
            assert(head =~= start);
        }
        if head == start {
            assert(head[0] == start[0] && head[1] == start[1] && head[2] == start[2] && head[3]
                == start[3]);
        }
    }
}

/// A part of a path ends at the first character that divides it, or with the path.
pub proof fn a_part_ends_where_the_path_is_divided(path: Seq<char>, from: int, verbatim: bool)
    requires
        0 <= from <= path.len(),
    ensures
        from <= part_end(path, from, verbatim) <= path.len(),
        part_end(path, from, verbatim) < path.len() ==> divides(
            path[part_end(path, from, verbatim)],
            verbatim,
        ),
        forall|i: int|
            from <= i < part_end(path, from, verbatim) ==> !divides(#[trigger] path[i], verbatim),
        part_end(path, from, verbatim) == path.len() ==> share_end(path, from, verbatim)
            == path.len(),
        part_end(path, from, verbatim) < path.len() ==> share_end(path, from, verbatim) == part_end(
            path,
            part_end(path, from, verbatim) + 1,
            verbatim,
        ),
    decreases path.len() - from,
{
    if from < path.len() && !divides(path[from], verbatim) {
        a_part_ends_where_the_path_is_divided(path, from + 1, verbatim);
    }
}

/// What a path's volume is: a drive, the share of a server, a device, or what stands
/// first in a path that is taken word for word. Any other path has none.
pub proof fn volumes_start_a_path(path: Seq<char>)
    ensures
        has_drive(path, 0) && !is_separator(path[0]) ==> volume_end(path) == 2,
        path.len() >= 2 && ('a' <= path[0] <= 'z' || 'A' <= path[0] <= 'Z') && path[1] == ':'
            ==> volume_end(path) == 2,
        path.len() == 0 ==> volume_end(path) == 0,
        path.len() >= 1 && !is_separator(path[0]) && !(path.len() >= 2 && path[1] == ':')
            ==> volume_end(path) == 0,
        path.len() >= 1 && !is_separator(path[0]) && !('a' <= path[0] <= 'z' || 'A' <= path[0]
            <= 'Z') ==> volume_end(path) == 0,
        path.len() == 1 ==> volume_end(path) == 0,
        path.len() >= 2 && is_separator(path[0]) && !is_separator(path[1]) ==> volume_end(path)
            == 0,
        is_verbatim(path) && path.len() >= 8 && path[4] == 'U' && path[5] == 'N' && path[6] == 'C'
            && path[7] == '\\' ==> volume_end(path) == share_end(path, 8, true),
        is_verbatim(path) && path.len() >= 6 && ('a' <= path[4] <= 'z' || 'A' <= path[4] <= 'Z')
            && path[5] == ':' && (path.len() == 6 || path[6] == '\\') ==> volume_end(path) == 6,
        is_verbatim(path) && !(path.len() >= 8 && path[4] == 'U' && path[5] == 'N' && path[6] == 'C'
            && path[7] == '\\') && !(path.len() >= 6 && ('a' <= path[4] <= 'z' || 'A' <= path[4]
            <= 'Z') && path[5] == ':' && (path.len() == 6 || path[6] == '\\')) ==> volume_end(path)
            == part_end(path, 4, true),
        !is_verbatim(path) && path.len() >= 4 && is_separator(path[0]) && is_separator(path[1])
            && path[2] == '.' && is_separator(path[3]) ==> volume_end(path) == part_end(
            path,
            4,
            false,
        ),
        !is_verbatim(path) && path.len() >= 2 && is_separator(path[0]) && is_separator(path[1]) && !(
        path.len() >= 4 && path[2] == '.' && is_separator(path[3])) && part_end(path, 2, false) > 2
            && share_end(path, 2, false) > part_end(path, 2, false) + 1 ==> volume_end(path)
            == share_end(path, 2, false),
        !is_verbatim(path) && path.len() >= 2 && is_separator(path[0]) && is_separator(path[1]) && !(
        path.len() >= 4 && path[2] == '.' && is_separator(path[3])) && !(part_end(path, 2, false)
            > 2 && share_end(path, 2, false) > part_end(path, 2, false) + 1) ==> volume_end(path)
            == 0,
{
}

/// Separators at the end of a path say nothing, nor does a full stop for the folder
/// itself. Anything else does.
pub proof fn what_says_nothing_is_dropped(path: Seq<char>, c: char, verbatim: bool)
    ensures
        bare_path(Seq::empty(), verbatim) == Seq::<char>::empty(),
        c == '\\' || (c == '/' && !verbatim) ==> bare_path(path.push(c), verbatim) == bare_path(
            path,
            verbatim,
        ),
        c == '.' && !verbatim && path.len() > 0 && is_separator(path.last()) ==> bare_path(
            path.push(c),
            verbatim,
        ) == bare_path(path, verbatim),
        c != '\\' && c != '/' && c != '.' ==> bare_path(path.push(c), verbatim) == path.push(c),
        c == '.' && (path.len() == 0 || !is_separator(path.last())) ==> bare_path(
            path.push(c),
            verbatim,
        ) == path.push(c),
        verbatim && c != '\\' ==> bare_path(path.push(c), verbatim) == path.push(c),
{
    let all = path.push(c);
    assert(all.drop_last() =~= path);
    assert(all.last() == c);
    if path.len() > 0 {
        assert(all[all.len() - 2] == path.last());
    }
}

/// The last part of a path starts behind the last character that divides it.
pub proof fn the_name_starts_behind_the_last_divider(path: Seq<char>, verbatim: bool)
    ensures
        0 <= name_start(path, verbatim) <= path.len(),
        name_start(path, verbatim) > 0 ==> divides(path[name_start(path, verbatim) - 1], verbatim),
        forall|i: int|
            name_start(path, verbatim) <= i < path.len() ==> !divides(#[trigger] path[i], verbatim),
    decreases path.len(),
{
    if path.len() > 0 && !divides(path.last(), verbatim) {
        let fewer = path.drop_last();
        the_name_starts_behind_the_last_divider(fewer, verbatim);
        let start = name_start(fewer, verbatim);
        if start > 0 {
            assert(fewer[start - 1] == path[start - 1]);
        }
        assert forall|i: int| start <= i < path.len() implies !divides(
            #[trigger] path[i],
            verbatim,
        ) by {
            if i < fewer.len() {
                assert(fewer[i] == path[i]);
            }
        }
    }
}

/// The name of a file in a folder is that name, whatever the folder, as long as the
/// name is an ordinary one and the folder's volume does not reach into it.
pub proof fn a_file_in_a_folder_has_its_name(folder: Seq<char>, name: Seq<char>)
    requires
        name.len() > 0,
        name.last() != '.',
        forall|i: int| 0 <= i < name.len() ==> !is_separator(#[trigger] name[i]),
        0 <= volume_end(folder + seq!['\\'] + name) <= folder.len(),
    ensures
        spec_file_name(folder + seq!['\\'] + name) == name,
{
    let path = folder + seq!['\\'] + name;
    let verbatim = is_verbatim(path);
    let rest = path.skip(volume_end(path));
    assert(rest.last() == name.last());
    assert(!is_separator(name[name.len() - 1]));
    assert(bare_path(rest, verbatim) == rest);
    the_name_starts_behind_the_last_divider(rest, verbatim);
    let start = name_start(rest, verbatim);
    let at = rest.len() - name.len();
    assert(rest[at - 1] == '\\');
    if start < at {
        assert(divides(rest[at - 1], verbatim));
    }
    if start > at {
        assert(rest[start - 1] == name[start - 1 - at]);
    }
    assert(rest.skip(at) =~= name);
    assert(seq!['.'].last() == '.');
    assert(seq!['.', '.'].last() == '.');
}

/// The name of a file is the last part of what follows the volume, without what says
/// nothing at the end. A full stop alone, or two, are no name.
pub proof fn the_name_is_the_last_part(path: Seq<char>)
    ensures
        ({
            let verbatim = is_verbatim(path);
            let bare = bare_path(path.skip(volume_end(path)), verbatim);
            let last = bare.subrange(name_start(bare, verbatim), bare.len() as int);
            &&& spec_file_name(path) == last || spec_file_name(path).len() == 0
            &&& spec_file_name(path).len() == 0 <==> (last.len() == 0 || last == seq!['.'] || last
                == seq!['.', '.'])
        }),
        forall|i: int|
            0 <= i < spec_file_name(path).len() ==> !divides(
                #[trigger] spec_file_name(path)[i],
                is_verbatim(path),
            ),
{
    let verbatim = is_verbatim(path);
    let bare = bare_path(path.skip(volume_end(path)), verbatim);
    the_name_starts_behind_the_last_divider(bare, verbatim);
    let start = name_start(bare, verbatim);
    assert(bare.skip(start) =~= bare.subrange(start, bare.len() as int));
    assert forall|i: int| 0 <= i < spec_file_name(path).len() implies !divides(
        #[trigger] spec_file_name(path)[i],
        verbatim,
    ) by {
        assert(!divides(bare[start + i], verbatim));
    }
}

/// The extension of a file is what follows the last full stop of its name. A name
/// without one, or with one only at its start, has none.
pub proof fn the_extension_follows_the_last_full_stop(path: Seq<char>)
    ensures
        ({
            let name = spec_file_name(path);
            let extension = spec_extension_of(path);
            &&& extension is Some ==> exists|dot: int|
                {
                    &&& 0 < dot < name.len()
                    &&& #[trigger] name[dot] == '.'
                    &&& extension->0 == name.subrange(dot + 1, name.len() as int)
                    &&& !extension->0.contains('.')
                }
            &&& extension is None ==> forall|i: int| 0 < i < name.len() ==> #[trigger] name[i] != '.'
        }),
{
    let name = spec_file_name(path);
    lemma_last_dot_place(name);
    let dot = last_dot(name);
    if dot > 0 {
        assert(name[dot] == '.');
        let extension = name.skip(dot + 1);
        assert(extension =~= name.subrange(dot + 1, name.len() as int));
        if extension.contains('.') {
            let i = choose|i: int| 0 <= i < extension.len() && extension[i] == '.';
            assert(name[dot + 1 + i] == '.');
        }
    }
}

proof fn lemma_last_dot_place(name: Seq<char>)
    ensures
        -1 <= last_dot(name) < name.len(),
        last_dot(name) >= 0 ==> name[last_dot(name)] == '.',
        forall|i: int| last_dot(name) < i < name.len() ==> #[trigger] name[i] != '.',
    decreases name.len(),
{
    if name.len() > 0 && name.last() != '.' {
        let fewer = name.drop_last();
        lemma_last_dot_place(fewer);
        assert forall|i: int| last_dot(name) < i < name.len() implies #[trigger] name[i] != '.' by {
            if i < fewer.len() {
                assert(fewer[i] == name[i]);
            }
        }
    }
}

/// Which files are captures, and as what a file is read, told by the extension in any
/// casing.
pub proof fn formats_go_by_the_extension(path: Seq<char>)
    ensures
        ({
            let extension = spec_extension_of(path);
            let lower = crate::text::ascii_lowered(extension->0);
            &&& extension is None ==> spec_format_of(path) is None && spec_read_format(path) is None
            &&& extension is Some ==> (spec_format_of(path) == Some(ImageFormat::Png) <==> lower
                == "png"@)
            &&& extension is Some ==> (spec_format_of(path) == Some(ImageFormat::Jpeg) <==> (lower
                == "jpg"@ || lower == "jpeg"@))
            &&& extension is Some ==> (spec_read_format(path) == Some(ImageFormat::Png) <==> (lower
                == "png"@ || lower == "apng"@))
            &&& extension is Some ==> (spec_read_format(path) == Some(ImageFormat::Jpeg) <==> (lower
                == "jpg"@ || lower == "jpeg"@ || lower == "jfif"@))
            &&& spec_is_image(path) <==> extension is Some && (lower == "png"@ || lower == "jpg"@
                || lower == "jpeg"@)
            &&& spec_format_of(path) is Some ==> spec_read_format(path) == spec_format_of(path)
        }),
{
    reveal_strlit("png");
    reveal_strlit("apng");
    reveal_strlit("jpg");
    reveal_strlit("jpeg");
    reveal_strlit("jfif");
    assert("png"@[0] != "jpg"@[0]);
    assert("png"@[0] != "jpeg"@[0]);
    assert("png"@[0] != "jfif"@[0]);
    assert("apng"@[0] != "jpg"@[0]);
    assert("apng"@[0] != "jpeg"@[0]);
    assert("apng"@[0] != "jfif"@[0]);
}

/// What is shown of an entry and of the parts of a path is what they hold.
pub proof fn entries_are_shown_as_they_are(entry: HistoryEntry, parts: Seq<String>, i: int)
    ensures
        entry@.path == entry.path@,
        entry@.file_name == entry.file_name@,
        entry@.taken_at_ms == entry.taken_at_ms,
        entry@.bytes == entry.bytes,
        entry@.width == entry.width,
        entry@.height == entry.height,
        entry@.kind == entry.kind,
        entry@.source is None <==> entry.source is None,
        entry.source is Some ==> entry@.source->0 == entry.source->0@,
        entry@.thumbnail_url == entry.thumbnail_url@,
        entry@.full_url == entry.full_url@,
        parts_view(parts).len() == parts.len(),
        0 <= i < parts.len() ==> parts_view(parts)[i] == parts[i]@,
{
}

} // verus!
