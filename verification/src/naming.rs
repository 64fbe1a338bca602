//! The names of captured files.
//!
//! [`resolve`] always finds a name and never fails. By the time of a capture, a
//! moment gives `Screenshot_2026-09-20_14-32-05.png`, then the same with `_2`,
//! `_3` and so on for further captures in that second. A prefix gives
//! `MyShot_001.png`, with a number that only grows and that skips over names
//! already taken. Nothing is ever overwritten.

use vstd::prelude::*;
use vstd::string::*;

use crate::clock::LocalTime;
use crate::config::{NamingMode, NamingSettings};
use crate::text::{
    blank, chars_of, control, decimal_text, padded_text, same, space, string_of, to_ascii_upper,
    trim, trim_end, Strip,
};

verus! {

/// Used where the configured pattern is bad.
pub const DEFAULT_DATETIME_PATTERN: &'static str = "Screenshot_%Y-%m-%d_%H-%M-%S";

/// Used where nothing of a name is left.
pub const FALLBACK_STEM: &'static str = "Screenshot";

/// How many tidy names are tried.
pub const MAX_ATTEMPTS: u32 = 10_000;

/// The most characters that a stem has.
pub const MAX_STEM_LEN: usize = 120;

// ---------------------------------------------------------------------------
// Stems
// ---------------------------------------------------------------------------

/// The characters that Windows forbids in a file name.
pub open spec fn is_illegal(c: char) -> bool {
    ||| c == '<'
    ||| c == '>'
    ||| c == ':'
    ||| c == '"'
    ||| c == '/'
    ||| c == '\\'
    ||| c == '|'
    ||| c == '?'
    ||| c == '*'
}

/// A character as it may stand in a file name.
pub open spec fn legal_char(c: char) -> char {
    if is_illegal(c) || crate::text::is_control(c) {
        '_'
    } else {
        c
    }
}

/// `s` with its forbidden characters replaced.
pub open spec fn replaced(s: Seq<char>) -> Seq<char> {
    s.map_values(|c: char| legal_char(c))
}

/// `s` with only the first of each run of white space.
pub open spec fn collapsed(s: Seq<char>) -> Seq<char>
    decreases s.len(),
{
    if s.len() == 0 {
        s
    } else if s.len() >= 2 && crate::text::is_space(s.last()) && crate::text::is_space(
        s[s.len() - 2],
    ) {
        collapsed(s.drop_last())
    } else {
        collapsed(s.drop_last()).push(s.last())
    }
}

/// `s` cut to the longest stem, without the trailing characters that Windows drops.
pub open spec fn shortened(s: Seq<char>) -> Seq<char> {
    let whole = crate::text::trimmed_end(s, Strip::DotOrBlank);
    if whole.len() > MAX_STEM_LEN {
        crate::text::trimmed_end(whole.take(MAX_STEM_LEN as int), Strip::DotOrBlank)
    } else {
        whole
    }
}

/// The device names, in upper case, that no file can have for its stem.
pub open spec fn is_device(s: Seq<char>) -> bool {
    ||| s == "CON"@
    ||| s == "PRN"@
    ||| s == "AUX"@
    ||| s == "NUL"@
    ||| s.len() == 4 && (s.take(3) == "COM"@ || s.take(3) == "LPT"@) && '1' <= s[3] <= '9'
}

/// Whether a stem is a device name in any casing.
pub open spec fn is_reserved(s: Seq<char>) -> bool {
    is_device(crate::text::ascii_uppered(s))
}

/// What is left of `raw` before an empty or reserved stem is mended.
pub open spec fn cleaned(raw: Seq<char>) -> Seq<char> {
    shortened(crate::text::trimmed(collapsed(replaced(raw))))
}

/// The stem made of `raw`.
pub open spec fn sanitised(raw: Seq<char>) -> Seq<char> {
    let stem = cleaned(raw);
    if stem.len() == 0 {
        FALLBACK_STEM@
    } else if is_reserved(stem) {
        stem.push('_')
    } else {
        stem
    }
}

fn illegal(c: char) -> (r: bool)
    ensures
        r == is_illegal(c),
{
    c == '<' || c == '>' || c == ':' || c == '"' || c == '/' || c == '\\' || c == '|' || c == '?'
        || c == '*'
}

/// Replaces the forbidden characters and drops repeated white space.
fn replace_and_collapse(raw: &str) -> (r: String)
    ensures
        r@ == collapsed(replaced(raw@)),
{
    let chars: Vec<char> = chars_of(raw);
    let ghost whole = replaced(raw@);
    let mut out: String = String::new();
    let mut after_space: bool = false;
    let mut i: usize = 0;
    assert(whole.take(0) =~= Seq::<char>::empty());
    while i < chars.len()
        invariant
            0 <= i <= chars.len(),
            chars@ == raw@,
            whole == replaced(raw@),
            after_space == (i > 0 && crate::text::is_space(whole[i - 1])),
            out@ == collapsed(whole.take(i as int)),
        decreases chars.len() - i,
    {
        let c: char = if illegal(chars[i]) || control(chars[i]) {
            '_'
        } else {
            chars[i]
        };
        let blank_here: bool = space(c);
        proof {
            let next = whole.take(i + 1);
            assert(next.drop_last() =~= whole.take(i as int));
            assert(next.last() == c);
            if i > 0 {
                assert(next[next.len() - 2] == whole[i - 1]);
            }
        }
        if !(blank_here && after_space) {
            out.push(c);
        }
        after_space = blank_here;
        i += 1;
    }
    assert(whole.take(i as int) =~= whole);
    out
}

/// Cuts a stem to its greatest length.
fn shorten(s: &str) -> (r: String)
    ensures
        r@ == shortened(s@),
{
    let whole: String = trim_end(s, Strip::DotOrBlank);
    let chars: Vec<char> = chars_of(whole.as_str());
    if chars.len() > MAX_STEM_LEN {
        let cut: String = string_of(&chars, 0, MAX_STEM_LEN);
        assert(cut@ =~= whole@.take(MAX_STEM_LEN as int));
        trim_end(cut.as_str(), Strip::DotOrBlank)
    } else {
        whole
    }
}

fn reserved(s: &str) -> (r: bool)
    ensures
        r == is_reserved(s@),
{
    let upper: String = to_ascii_upper(s);
    if same(upper.as_str(), "CON") || same(upper.as_str(), "PRN") || same(upper.as_str(), "AUX")
        || same(upper.as_str(), "NUL") {
        return true;
    }
    let chars: Vec<char> = chars_of(upper.as_str());
    if chars.len() != 4 {
        return false;
    }
    let head: String = string_of(&chars, 0, 3);
    assert(head@ =~= upper@.take(3));
    (same(head.as_str(), "COM") || same(head.as_str(), "LPT")) && '1' <= chars[3] && chars[3]
        <= '9'
}

/// Replaces what Windows does not accept, collapses white space, and keeps clear
/// of device names.
pub fn sanitise_stem(raw: &str) -> (r: String)
    ensures
        r@ == sanitised(raw@),
{
    let kept: String = replace_and_collapse(raw);
    let bare: String = trim(kept.as_str());
    let mut stem: String = shorten(bare.as_str());
    if stem.as_str().is_empty() {
        return FALLBACK_STEM.to_owned();
    }
    if reserved(stem.as_str()) {
        stem.push('_');
    }
    stem
}

// ---------------------------------------------------------------------------
// Moments
// ---------------------------------------------------------------------------

/// The text of a moment after a pattern, or after the default pattern where that
/// is bad or gives nothing to see.
pub open spec fn datetime_text(pattern: Seq<char>, at: &LocalTime) -> Seq<char> {
    let (secs, nanos, offset) = (at.spec_secs(), at.spec_nanos(), at.spec_offset());
    match crate::clock::strftime_text(pattern, secs, nanos, offset) {
        Some(text) if !crate::text::is_blank(text) => text,
        _ => crate::clock::strftime_text(DEFAULT_DATETIME_PATTERN@, secs, nanos, offset)->0,
    }
}

proof fn lemma_default_pattern()
    ensures
        crate::clock::is_plain_pattern(DEFAULT_DATETIME_PATTERN@),
{
    reveal_strlit("Screenshot_%Y-%m-%d_%H-%M-%S");
    reveal_with_fuel(crate::clock::plain_from, 25);
}

/// The text to use for a moment, given what the user's pattern made of it.
pub fn choose_datetime(formatted: Option<String>, fallback: String) -> (r: String)
    ensures
        r@ == match formatted {
            Some(text) if !crate::text::is_blank(text@) => text@,
            _ => fallback@,
        },
{
    match formatted {
        Some(text) => {
            if blank(text.as_str()) {
                fallback
            } else {
                text
            }
        },
        None => fallback,
    }
}

/// Writes a moment after a pattern. A bad pattern is no failure.
pub fn format_datetime(pattern: &str, at: &LocalTime) -> (r: String)
    ensures
        r@ == datetime_text(pattern@, at),
{
    proof {
        lemma_default_pattern();
    }
    let fallback: String = match at.format(DEFAULT_DATETIME_PATTERN) {
        Some(text) => text,
        None => String::new(),
    };
    choose_datetime(at.format(pattern), fallback)
}

// ---------------------------------------------------------------------------
// Names
// ---------------------------------------------------------------------------

pub open spec fn dotted(stem: Seq<char>, extension: Seq<char>) -> Seq<char> {
    stem + "."@ + extension
}

/// The name with a number that is filled up with zeros.
pub open spec fn numbered(
    stem: Seq<char>,
    n: nat,
    padding: nat,
    extension: Seq<char>,
) -> Seq<char> {
    dotted(stem + "_"@ + crate::text::padded(n, padding), extension)
}

fn dotted_name(stem: String, extension: &str) -> (r: String)
    ensures
        r@ == dotted(stem@, extension@),
{
    let mut name: String = stem;
    name.append(".");
    name.append(extension);
    name
}

fn numbered_name(stem: &str, n: u64, padding: usize, extension: &str) -> (r: String)
    ensures
        r@ == numbered(stem@, n as nat, padding as nat, extension@),
{
    let mut name: String = stem.to_owned();
    name.append("_");
    name.append(padded_text(n, padding).as_str());
    dotted_name(name, extension)
}

/// What a file name looks like.
pub open spec fn previewed(
    naming: crate::config::NamingView,
    extension: Seq<char>,
    at: &LocalTime,
) -> Seq<char> {
    match naming.mode {
        NamingMode::Datetime => dotted(
            sanitised(datetime_text(naming.datetime_pattern, at)),
            extension,
        ),
        NamingMode::Prefix => numbered(
            sanitised(naming.prefix),
            naming.counter as nat,
            naming.counter_padding as nat,
            extension,
        ),
    }
}

/// Shows what a file name would look like.
pub fn preview(naming: &NamingSettings, extension: &str, at: &LocalTime) -> (r: String)
    ensures
        r@ == previewed(naming@, extension@, at),
{
    match naming.mode {
        NamingMode::Datetime => {
            let text: String = format_datetime(naming.datetime_pattern.as_str(), at);
            dotted_name(sanitise_stem(text.as_str()), extension)
        },
        NamingMode::Prefix => {
            let stem: String = sanitise_stem(naming.prefix.as_str());
            numbered_name(
                stem.as_str(),
                naming.counter as u64,
                naming.counter_padding,
                extension,
            )
        },
    }
}

/// What [`resolve`] picks a name for.
pub struct NameRequest<'a> {
    pub naming: &'a NamingSettings,
    /// Without a dot.
    pub extension: &'a str,
    /// When the capture was taken.
    pub taken_at: LocalTime,
}

/// The chosen name.
#[derive(Debug)]
pub struct ResolvedName {
    /// The name of the file in the directory that was asked about.
    pub file_name: String,
    /// The number that was used, where the name has one. The next capture goes on
    /// from the number after it.
    pub counter_used: Option<u32>,
}

/// The stem of every name that is tried.
pub open spec fn stem_of(naming: crate::config::NamingView, at: &LocalTime) -> Seq<char> {
    match naming.mode {
        NamingMode::Datetime => sanitised(datetime_text(naming.datetime_pattern, at)),
        NamingMode::Prefix => sanitised(naming.prefix),
    }
}

/// The first number that is tried.
pub open spec fn first_number(naming: crate::config::NamingView) -> int {
    if naming.counter == 0 {
        1
    } else {
        naming.counter as int
    }
}

/// How many tidy names there are.
pub open spec fn tidy_count(naming: crate::config::NamingView) -> int {
    match naming.mode {
        NamingMode::Datetime => MAX_ATTEMPTS as int,
        NamingMode::Prefix => {
            let first = first_number(naming);
            if first + MAX_ATTEMPTS > u32::MAX {
                u32::MAX - first
            } else {
                MAX_ATTEMPTS as int
            }
        },
    }
}

/// The name that is tried at place `k`, counted from zero, among the tidy ones.
pub open spec fn tidy_candidate(
    naming: crate::config::NamingView,
    stem: Seq<char>,
    extension: Seq<char>,
    k: int,
) -> Seq<char> {
    match naming.mode {
        NamingMode::Datetime => if k == 0 {
            dotted(stem, extension)
        } else {
            dotted(stem + "_"@ + crate::text::decimal((k + 1) as nat), extension)
        },
        NamingMode::Prefix => numbered(
            stem,
            (first_number(naming) + k) as nat,
            naming.counter_padding as nat,
            extension,
        ),
    }
}

/// The name that is tried with a salt once no tidy name is free.
pub open spec fn stamped_candidate(
    stem: Seq<char>,
    stamp: Seq<char>,
    extension: Seq<char>,
    salt: int,
) -> Seq<char> {
    if salt == 0 {
        dotted(stem + "_"@ + stamp, extension)
    } else {
        dotted(stem + "_"@ + stamp + "-"@ + crate::text::decimal(salt as nat), extension)
    }
}

/// The time that goes into a stamped name.
pub open spec fn stamp_of(now: &LocalTime) -> Seq<char> {
    crate::clock::strftime_text(
        "%Y%m%d-%H%M%S%.3f"@,
        now.spec_secs(),
        now.spec_nanos(),
        now.spec_offset(),
    )->0
}

/// Whether asking `probe` for a file of this name can give this answer.
pub open spec fn answers<F: Fn(&String) -> bool>(
    probe: F,
    name: Seq<char>,
    answer: bool,
) -> bool {
    exists|s: String| s@ == name && #[trigger] probe.ensures((&s,), answer)
}

/// Whether the tidy names up to `k` were all found taken.
pub open spec fn tidy_taken<F: Fn(&String) -> bool>(
    probe: F,
    naming: crate::config::NamingView,
    stem: Seq<char>,
    extension: Seq<char>,
    k: int,
) -> bool {
    forall|j: int|
        0 <= j < k ==> answers(probe, #[trigger] tidy_candidate(naming, stem, extension, j), true)
}

/// Whether the stamped names up to `salt` were all found taken.
pub open spec fn stamped_taken<F: Fn(&String) -> bool>(
    probe: F,
    stem: Seq<char>,
    stamp: Seq<char>,
    extension: Seq<char>,
    salt: int,
) -> bool {
    forall|j: int|
        0 <= j < salt ==> answers(
            probe,
            #[trigger] stamped_candidate(stem, stamp, extension, j),
            true,
        )
}

/// Whether `name` is the first tidy name that was found free, at place `k`.
pub open spec fn is_tidy_choice<F: Fn(&String) -> bool>(
    probe: F,
    naming: crate::config::NamingView,
    stem: Seq<char>,
    extension: Seq<char>,
    k: int,
    name: Seq<char>,
) -> bool {
    &&& 0 <= k < tidy_count(naming)
    &&& name == tidy_candidate(naming, stem, extension, k)
    &&& answers(probe, name, false)
    &&& tidy_taken(probe, naming, stem, extension, k)
}

/// Whether `name` is the first stamped name that was found free, with this salt.
pub open spec fn is_stamped_choice<F: Fn(&String) -> bool>(
    probe: F,
    stem: Seq<char>,
    stamp: Seq<char>,
    extension: Seq<char>,
    salt: int,
    name: Seq<char>,
) -> bool {
    &&& 0 <= salt < u32::MAX
    &&& name == stamped_candidate(stem, stamp, extension, salt)
    &&& answers(probe, name, false)
    &&& stamped_taken(probe, stem, stamp, extension, salt)
}

/// Whether `name` is what is left where every stamped name was found taken.
pub open spec fn is_exhausted_choice<F: Fn(&String) -> bool>(
    probe: F,
    stem: Seq<char>,
    stamp: Seq<char>,
    extension: Seq<char>,
    name: Seq<char>,
) -> bool {
    &&& name == stamped_candidate(stem, stamp, extension, 0)
    &&& stamped_taken(probe, stem, stamp, extension, u32::MAX as int)
}

/// The name that the search comes to: the first tidy name that is free, else the
/// first stamped one.
pub open spec fn is_resolved<F: Fn(&String) -> bool>(
    probe: F,
    naming: crate::config::NamingView,
    stem: Seq<char>,
    stamp: Seq<char>,
    extension: Seq<char>,
    r: ResolvedName,
) -> bool {
    ||| exists|k: int|
        {
            &&& #[trigger] is_tidy_choice(probe, naming, stem, extension, k, r.file_name@)
            &&& r.counter_used == match naming.mode {
                NamingMode::Datetime => None::<u32>,
                NamingMode::Prefix => Some((first_number(naming) + k) as u32),
            }
        }
    ||| {
        &&& tidy_taken(probe, naming, stem, extension, tidy_count(naming))
        &&& r.counter_used is None
        &&& {
            ||| exists|salt: int| #[trigger]
                is_stamped_choice(probe, stem, stamp, extension, salt, r.file_name@)
            ||| is_exhausted_choice(probe, stem, stamp, extension, r.file_name@)
        }
    }
}

/// Looks for a stamped name.
fn escape_hatch<F: Fn(&String) -> bool>(
    stem: &str,
    stamp: &str,
    extension: &str,
    probe: &F,
) -> (r: String)
    requires
        forall|s: String| probe.requires((&s,)),
    ensures
        (exists|salt: int| #[trigger]
            is_stamped_choice(*probe, stem@, stamp@, extension@, salt, r@)) || is_exhausted_choice(
            *probe,
            stem@,
            stamp@,
            extension@,
            r@,
        ),
{
    let mut salt: u32 = 0;
    while salt < u32::MAX
        invariant
            forall|s: String| probe.requires((&s,)),
            stamped_taken(*probe, stem@, stamp@, extension@, salt as int),
        decreases u32::MAX - salt,
    {
        let mut base: String = stem.to_owned();
        base.append("_");
        base.append(stamp);
        if salt != 0 {
            base.append("-");
            base.append(decimal_text(salt as u64).as_str());
        }
        let candidate: String = dotted_name(base, extension);
        assert(candidate@ == stamped_candidate(stem@, stamp@, extension@, salt as int));
        let taken: bool = probe(&candidate);
        assert(answers(*probe, candidate@, taken));
        if !taken {
            assert(is_stamped_choice(
                *probe,
                stem@,
                stamp@,
                extension@,
                salt as int,
                candidate@,
            ));
            return candidate;
        }
        salt += 1;
    }
    let mut base: String = stem.to_owned();
    base.append("_");
    base.append(stamp);
    dotted_name(base, extension)
}

/// Writes the tidy name at place `k`.
fn tidy_name(naming: &NamingSettings, stem: &str, extension: &str, k: u32) -> (r: String)
    requires
        k < tidy_count(naming@),
    ensures
        r@ == tidy_candidate(naming@, stem@, extension@, k as int),
{
    match naming.mode {
        NamingMode::Datetime => {
            let mut base: String = stem.to_owned();
            if k != 0 {
                base.append("_");
                base.append(decimal_text(k as u64 + 1).as_str());
            }
            dotted_name(base, extension)
        },
        NamingMode::Prefix => {
            let first: u32 = if naming.counter == 0 {
                1
            } else {
                naming.counter
            };
            numbered_name(stem, (first + k) as u64, naming.counter_padding, extension)
        },
    }
}

/// Picks a free name.
///
/// `probe` says whether a file of a name is already there, and `now` is the
/// present moment, which a name carries only where no tidy one is free.
pub fn resolve<F: Fn(&String) -> bool>(req: NameRequest<'_>, now: LocalTime, probe: F) -> (r:
    ResolvedName)
    requires
        forall|s: String| probe.requires((&s,)),
    ensures
        is_resolved(
            probe,
            req.naming@,
            stem_of(req.naming@, &req.taken_at),
            stamp_of(&now),
            req.extension@,
            r,
        ),
        all_legal(req.extension@) ==> all_legal(r.file_name@),
{
    let naming: &NamingSettings = req.naming;
    let stem: String = match naming.mode {
        NamingMode::Datetime => {
            let text: String = format_datetime(naming.datetime_pattern.as_str(), &req.taken_at);
            sanitise_stem(text.as_str())
        },
        NamingMode::Prefix => sanitise_stem(naming.prefix.as_str()),
    };
    let first: u32 = if naming.counter == 0 {
        1
    } else {
        naming.counter
    };
    let tidy: u32 = match naming.mode {
        NamingMode::Datetime => MAX_ATTEMPTS,
        NamingMode::Prefix => if first > u32::MAX - MAX_ATTEMPTS {
            u32::MAX - first
        } else {
            MAX_ATTEMPTS
        },
    };
    let mut k: u32 = 0;
    while k < tidy
        invariant
            forall|s: String| probe.requires((&s,)),
            naming == req.naming,
            first == first_number(naming@),
            tidy == tidy_count(naming@),
            stem@ == stem_of(naming@, &req.taken_at),
            tidy_taken(probe, naming@, stem@, req.extension@, k as int),
        decreases tidy - k,
    {
        let candidate: String = tidy_name(naming, stem.as_str(), req.extension, k);
        let taken: bool = probe(&candidate);
        assert(answers(probe, candidate@, taken));
        if !taken {
            let counter_used: Option<u32> = match naming.mode {
                NamingMode::Datetime => None,
                NamingMode::Prefix => Some(first + k),
            };
            let chosen: ResolvedName = ResolvedName { file_name: candidate, counter_used };
            assert(is_tidy_choice(
                probe,
                naming@,
                stem@,
                req.extension@,
                k as int,
                chosen.file_name@,
            ));
            proof {
                lemma_tidy_legal(naming@, &req.taken_at, req.extension@);
                assert(all_legal(req.extension@) ==> all_legal(
                    tidy_candidate(naming@, stem@, req.extension@, k as int),
                ));
            }
            return chosen;
        }
        k += 1;
    }
    proof {
        reveal_strlit("%Y%m%d-%H%M%S%.3f");
        reveal_with_fuel(crate::clock::plain_from, 12);
    }
    let text: String = match now.format("%Y%m%d-%H%M%S%.3f") {
        Some(text) => text,
        None => String::new(),
    };
    let file_name: String = escape_hatch(stem.as_str(), text.as_str(), req.extension, &probe);
    proof {
        lemma_tidy_legal(naming@, &req.taken_at, req.extension@);
        lemma_stamped_legal(stem@, text@, req.extension@);
    }
    ResolvedName { file_name, counter_used: None }
}

// ---------------------------------------------------------------------------
// Laws
// ---------------------------------------------------------------------------

/// Every character may stand in a file name.
pub open spec fn all_legal(s: Seq<char>) -> bool {
    forall|i: int|
        0 <= i < s.len() ==> !is_illegal(#[trigger] s[i]) && !crate::text::is_control(s[i])
}

/// No white space follows white space.
pub open spec fn no_double_space(s: Seq<char>) -> bool {
    forall|i: int|
        0 < i < s.len() ==> !(crate::text::is_space(#[trigger] s[i]) && crate::text::is_space(
            s[i - 1],
        ))
}

proof fn lemma_collapsed(s: Seq<char>)
    requires
        all_legal(s),
    ensures
        all_legal(collapsed(s)),
        no_double_space(collapsed(s)),
        s.len() > 0 ==> collapsed(s).len() > 0 && crate::text::is_space(collapsed(s).last())
            == crate::text::is_space(s.last()),
    decreases s.len(),
{
    if s.len() > 0 {
        let t = s.drop_last();
        assert(all_legal(t)) by {
            assert forall|i: int| 0 <= i < t.len() implies !is_illegal(#[trigger] t[i])
                && !crate::text::is_control(t[i]) by {
                assert(t[i] == s[i]);
            }
        }
        lemma_collapsed(t);
        if s.len() >= 2 {
            assert(t.last() == s[s.len() - 2]);
        } else {
            assert(collapsed(t) =~= Seq::<char>::empty());
        }
    }
}

/// A stretch of a legal text is a legal text.
proof fn lemma_part(s: Seq<char>, from: int, to: int)
    requires
        0 <= from <= to <= s.len(),
        all_legal(s),
        no_double_space(s),
    ensures
        all_legal(s.subrange(from, to)),
        no_double_space(s.subrange(from, to)),
{
    let part = s.subrange(from, to);
    assert forall|i: int| 0 <= i < part.len() implies !is_illegal(#[trigger] part[i])
        && !crate::text::is_control(part[i]) by {
        assert(part[i] == s[from + i]);
    }
    assert forall|i: int| 0 < i < part.len() implies !(crate::text::is_space(#[trigger] part[i])
        && crate::text::is_space(part[i - 1])) by {
        assert(part[i] == s[from + i]);
        assert(part[i - 1] == s[from + i - 1]);
    }
}

proof fn lemma_trimmed_end_part(s: Seq<char>)
    requires
        all_legal(s),
        no_double_space(s),
    ensures
        all_legal(crate::text::trimmed_end(s, Strip::DotOrBlank)),
        no_double_space(crate::text::trimmed_end(s, Strip::DotOrBlank)),
{
    let t = crate::text::trimmed_end(s, Strip::DotOrBlank);
    crate::text::lemma_trimmed_end(s, Strip::DotOrBlank);
    lemma_part(s, 0, t.len() as int);
    assert(s.take(t.len() as int) =~= s.subrange(0, t.len() as int));
}

/// A stem can be used as it is: it is neither empty nor too long, holds no
/// character that Windows forbids and no run of white space, does not end in what
/// Windows drops, and is no device name.
pub proof fn sanitised_stems_are_usable(raw: Seq<char>)
    ensures
        0 < sanitised(raw).len() <= MAX_STEM_LEN,
        all_legal(sanitised(raw)),
        no_double_space(sanitised(raw)),
        sanitised(raw).last() != '.',
        sanitised(raw).last() != ' ',
        !is_reserved(sanitised(raw)),
{
    reveal_strlit("Screenshot");
    reveal_strlit("CON");
    reveal_strlit("PRN");
    reveal_strlit("AUX");
    reveal_strlit("NUL");
    let whole = replaced(raw);
    assert forall|i: int| 0 <= i < whole.len() implies !is_illegal(#[trigger] whole[i])
        && !crate::text::is_control(whole[i]) by {
        assert(whole[i] == legal_char(raw[i]));
    }
    lemma_collapsed(whole);
    let narrow = collapsed(whole);
    let head = crate::text::trimmed_end(narrow, Strip::Space);
    let bare = crate::text::trimmed(narrow);
    crate::text::lemma_trimmed_end(narrow, Strip::Space);
    crate::text::lemma_trimmed_start(head, Strip::Space);
    lemma_part(narrow, 0, head.len() as int);
    assert(head =~= narrow.subrange(0, head.len() as int));
    lemma_part(head, head.len() - bare.len(), head.len() as int);
    assert(bare =~= head.subrange(head.len() - bare.len(), head.len() as int));
    let ended = crate::text::trimmed_end(bare, Strip::DotOrBlank);
    lemma_trimmed_end_part(bare);
    crate::text::lemma_trimmed_end(bare, Strip::DotOrBlank);
    if ended.len() > MAX_STEM_LEN {
        let cut = ended.take(MAX_STEM_LEN as int);
        lemma_part(ended, 0, MAX_STEM_LEN as int);
        assert(cut =~= ended.subrange(0, MAX_STEM_LEN as int));
        lemma_trimmed_end_part(cut);
        crate::text::lemma_trimmed_end(cut, Strip::DotOrBlank);
    }
    let stem = cleaned(raw);
    let upper = crate::text::ascii_uppered(sanitised(raw));
    if stem.len() == 0 {
        assert(upper.len() == 10);
    } else if is_reserved(stem) {
        let stem_upper = crate::text::ascii_uppered(stem);
        assert(stem_upper.len() == stem.len());
        assert(stem_upper.len() <= 4);
        assert(upper.last() == '_');
        assert(upper.len() == stem.len() + 1);
        if upper.len() == 4 {
            assert(upper[3] == '_');
        }
    }
}

proof fn lemma_joined_legal(a: Seq<char>, b: Seq<char>)
    requires
        all_legal(a),
        all_legal(b),
    ensures
        all_legal(a + b),
{
    assert forall|i: int| 0 <= i < (a + b).len() implies !is_illegal(#[trigger] (a + b)[i])
        && !crate::text::is_control((a + b)[i]) by {
        if i < a.len() {
            assert((a + b)[i] == a[i]);
        } else {
            assert((a + b)[i] == b[i - a.len()]);
        }
    }
}

/// A legal stem, what is put behind it, and a legal extension make a legal name.
pub(crate) proof fn lemma_dotted_legal(stem: Seq<char>, tail: Seq<char>, extension: Seq<char>)
    requires
        all_legal(stem),
        all_legal(tail),
        all_legal(extension),
    ensures
        all_legal(dotted(stem, extension)),
        all_legal(dotted(stem + "_"@ + tail, extension)),
{
    reveal_strlit("_");
    reveal_strlit(".");
    assert(all_legal("_"@));
    assert(all_legal("."@));
    lemma_joined_legal(stem, "."@);
    lemma_joined_legal(stem + "."@, extension);
    lemma_joined_legal(stem, "_"@);
    lemma_joined_legal(stem + "_"@, tail);
    lemma_joined_legal(stem + "_"@ + tail, "."@);
    lemma_joined_legal(stem + "_"@ + tail + "."@, extension);
}

pub(crate) proof fn lemma_number_legal(n: nat, padding: nat)
    ensures
        all_legal(crate::text::decimal(n)),
        all_legal(crate::text::padded(n, padding)),
{
    crate::text::lemma_decimal_digits(n);
    let plain = crate::text::decimal(n);
    let all = crate::text::padded(n, padding);
    assert(all_legal(plain));
    if plain.len() < padding {
        let zeros = Seq::new((padding - plain.len()) as nat, |i: int| '0');
        assert(all_legal(zeros));
        lemma_joined_legal(zeros, plain);
    }
}

/// Every tidy name may be the name of a file, where the extension may.
proof fn lemma_tidy_legal(naming: crate::config::NamingView, at: &LocalTime, extension: Seq<char>)
    ensures
        all_legal(stem_of(naming, at)),
        all_legal(extension) ==> forall|k: int| #[trigger]
            all_legal(tidy_candidate(naming, stem_of(naming, at), extension, k)),
{
    let stem = stem_of(naming, at);
    sanitised_stems_are_usable(
        match naming.mode {
            NamingMode::Datetime => datetime_text(naming.datetime_pattern, at),
            NamingMode::Prefix => naming.prefix,
        },
    );
    if all_legal(extension) {
        assert forall|k: int| #[trigger]
            all_legal(tidy_candidate(naming, stem, extension, k)) by {
            let n = (first_number(naming) + k) as nat;
            lemma_number_legal(n, naming.counter_padding as nat);
            lemma_number_legal((k + 1) as nat, 0);
            lemma_dotted_legal(stem, crate::text::decimal((k + 1) as nat), extension);
            lemma_dotted_legal(
                stem,
                crate::text::padded(n, naming.counter_padding as nat),
                extension,
            );
        }
    }
}

/// Every stamped name may be the name of a file, where the extension may.
proof fn lemma_stamped_legal(stem: Seq<char>, stamp: Seq<char>, extension: Seq<char>)
    requires
        all_legal(stem),
        crate::clock::is_drawn_from(stamp, "%Y%m%d-%H%M%S%.3f"@),
    ensures
        all_legal(extension) ==> forall|salt: int| #[trigger]
            all_legal(stamped_candidate(stem, stamp, extension, salt)),
{
    reveal_strlit("%Y%m%d-%H%M%S%.3f");
    reveal_strlit("-");
    assert(all_legal("%Y%m%d-%H%M%S%.3f"@));
    assert(all_legal("-"@));
    assert(all_legal(stamp)) by {
        assert forall|i: int| 0 <= i < stamp.len() implies !is_illegal(#[trigger] stamp[i])
            && !crate::text::is_control(stamp[i]) by {
            if "%Y%m%d-%H%M%S%.3f"@.contains(stamp[i]) {
                let k = choose|k: int|
                    0 <= k < "%Y%m%d-%H%M%S%.3f"@.len() && "%Y%m%d-%H%M%S%.3f"@[k] == stamp[i];
                assert(!is_illegal("%Y%m%d-%H%M%S%.3f"@[k]));
            }
        }
    }
    if all_legal(extension) {
        assert forall|salt: int| #[trigger]
            all_legal(stamped_candidate(stem, stamp, extension, salt)) by {
            let n = crate::text::decimal(salt as nat);
            lemma_number_legal(salt as nat, 0);
            lemma_joined_legal(stamp, "-"@);
            lemma_joined_legal(stamp + "-"@, n);
            lemma_dotted_legal(stem, stamp, extension);
            lemma_dotted_legal(stem, stamp + "-"@ + n, extension);
            assert(stem + "_"@ + stamp + "-"@ + n =~= stem + "_"@ + (stamp + "-"@ + n));
        }
    }
}

/// A name that is found has something before its extension, and ends in it. Gives
/// what stands before the full stop.
pub proof fn resolved_names_have_the_extension<F: Fn(&String) -> bool>(
    probe: F,
    naming: crate::config::NamingView,
    at: &LocalTime,
    stamp: Seq<char>,
    extension: Seq<char>,
    r: ResolvedName,
) -> (base: Seq<char>)
    requires
        is_resolved(probe, naming, stem_of(naming, at), stamp, extension, r),
    ensures
        base.len() > 0,
        r.file_name@ == dotted(base, extension),
{
    let stem = stem_of(naming, at);
    sanitised_stems_are_usable(
        match naming.mode {
            NamingMode::Datetime => datetime_text(naming.datetime_pattern, at),
            NamingMode::Prefix => naming.prefix,
        },
    );
    if exists|k: int| #[trigger]
        is_tidy_choice(probe, naming, stem, extension, k, r.file_name@) {
        let k = choose|k: int| #[trigger]
            is_tidy_choice(probe, naming, stem, extension, k, r.file_name@);
        match naming.mode {
            NamingMode::Datetime => if k == 0 {
                stem
            } else {
                stem + "_"@ + crate::text::decimal((k + 1) as nat)
            },
            NamingMode::Prefix => stem + "_"@ + crate::text::padded(
                (first_number(naming) + k) as nat,
                naming.counter_padding as nat,
            ),
        }
    } else if exists|salt: int| #[trigger]
        is_stamped_choice(probe, stem, stamp, extension, salt, r.file_name@) {
        let salt = choose|salt: int| #[trigger]
            is_stamped_choice(probe, stem, stamp, extension, salt, r.file_name@);
        if salt == 0 {
            stem + "_"@ + stamp
        } else {
            stem + "_"@ + stamp + "-"@ + crate::text::decimal(salt as nat)
        }
    } else {
        stem + "_"@ + stamp
    }
}

/// A number is written in full, however few digits are asked for.
pub proof fn numbers_are_not_truncated(n: nat, padding: nat)
    ensures
        crate::text::padded(n, padding).len() >= padding,
        crate::text::padded(n, padding).skip(
            crate::text::padded(n, padding).len() - crate::text::decimal(n).len(),
        ) == crate::text::decimal(n),
        forall|i: int|
            0 <= i < crate::text::padded(n, padding).len() - crate::text::decimal(n).len()
                ==> #[trigger] crate::text::padded(n, padding)[i] == '0',
{
    let all = crate::text::padded(n, padding);
    let plain = crate::text::decimal(n);
    assert(all.skip(all.len() - plain.len()) =~= plain);
}

/// The number that a name uses is never below the stored one, and there is a
/// number after it, so that a sequence of captures never goes back.
pub proof fn numbers_only_grow<F: Fn(&String) -> bool>(
    probe: F,
    naming: crate::config::NamingView,
    stem: Seq<char>,
    stamp: Seq<char>,
    extension: Seq<char>,
    r: ResolvedName,
)
    requires
        is_resolved(probe, naming, stem, stamp, extension, r),
    ensures
        r.counter_used matches Some(n) ==> n >= 1 && n >= naming.counter && n < u32::MAX && r
            .file_name@ == numbered(stem, n as nat, naming.counter_padding as nat, extension),
{
}

proof fn lemma_stamped_distinct(
    stem: Seq<char>,
    stamp: Seq<char>,
    extension: Seq<char>,
    a: int,
    b: int,
)
    requires
        0 <= a < b,
    ensures
        stamped_candidate(stem, stamp, extension, a) != stamped_candidate(
            stem,
            stamp,
            extension,
            b,
        ),
{
    reveal_strlit("-");
    reveal_strlit("_");
    reveal_strlit(".");
    let head = stem + "_"@ + stamp;
    let db = crate::text::decimal(b as nat);
    let nb = stamped_candidate(stem, stamp, extension, b);
    crate::text::lemma_decimal_len(b as nat);
    if a == 0 {
        assert(stamped_candidate(stem, stamp, extension, a).len() < nb.len());
    } else if stamped_candidate(stem, stamp, extension, a) == nb {
        let da = crate::text::decimal(a as nat);
        let na = stamped_candidate(stem, stamp, extension, a);
        let h = head.len() as int + 1;
        assert(na.len() == head.len() + da.len() + extension.len() + 2);
        assert(nb.len() == head.len() + db.len() + extension.len() + 2);
        assert(na.subrange(h, h + da.len()) =~= da);
        assert(nb.subrange(h, h + db.len()) =~= db);
        crate::text::lemma_decimal_injective(a as nat, b as nat);
    }
}

/// Nothing is ever overwritten: in a directory of fewer files than there are
/// stamped names, the chosen name is that of no file.
pub proof fn nothing_is_overwritten<F: Fn(&String) -> bool>(
    probe: F,
    taken: Set<Seq<char>>,
    naming: crate::config::NamingView,
    stem: Seq<char>,
    stamp: Seq<char>,
    extension: Seq<char>,
    r: ResolvedName,
)
    requires
        taken.finite(),
        taken.len() < u32::MAX,
        forall|s: String, answer: bool| #[trigger]
            probe.ensures((&s,), answer) ==> answer == taken.contains(s@),
        is_resolved(probe, naming, stem, stamp, extension, r),
    ensures
        !taken.contains(r.file_name@),
{
    if is_exhausted_choice(probe, stem, stamp, extension, r.file_name@) {
        let names = Seq::new(
            u32::MAX as nat,
            |salt: int| stamped_candidate(stem, stamp, extension, salt),
        );
        assert forall|i: int, j: int| 0 <= i < names.len() && 0 <= j < names.len() && i
            != j implies names[i] != names[j] by {
            if i < j {
                lemma_stamped_distinct(stem, stamp, extension, i, j);
            } else {
                lemma_stamped_distinct(stem, stamp, extension, j, i);
            }
        }
        assert(names.no_duplicates());
        names.unique_seq_to_set();
        assert forall|name: Seq<char>| names.to_set().contains(name) implies taken.contains(
            name,
        ) by {
            let i = choose|i: int| 0 <= i < names.len() && names[i] == name;
            assert(answers(probe, stamped_candidate(stem, stamp, extension, i), true));
        }
        vstd::set_lib::lemma_len_subset(names.to_set(), taken);
        assert(false);
    }
}

/// Which characters a name cannot have, and what stands in their place.
pub proof fn forbidden_characters_are_replaced(s: Seq<char>, i: int)
    requires
        0 <= i < s.len(),
    ensures
        is_illegal(s[i]) <==> (s[i] == '<' || s[i] == '>' || s[i] == ':' || s[i] == '"' || s[i]
            == '/' || s[i] == '\\' || s[i] == '|' || s[i] == '?' || s[i] == '*'),
        replaced(s).len() == s.len(),
        is_illegal(s[i]) || crate::text::is_control(s[i]) ==> replaced(s)[i] == '_',
        !is_illegal(s[i]) && !crate::text::is_control(s[i]) ==> replaced(s)[i] == s[i],
{
}

/// Of white space that follows white space nothing is kept, and of anything else
/// everything is.
pub proof fn runs_of_white_space_are_cut(s: Seq<char>, c: char)
    ensures
        collapsed(Seq::empty()) == Seq::<char>::empty(),
        s.len() > 0 && crate::text::is_space(s.last()) && crate::text::is_space(c) ==> collapsed(
            s.push(c),
        ) == collapsed(s),
        !crate::text::is_space(c) ==> collapsed(s.push(c)) == collapsed(s).push(c),
        s.len() == 0 || !crate::text::is_space(s.last()) ==> collapsed(s.push(c)) == collapsed(
            s,
        ).push(c),
{
    let all = s.push(c);
    assert(all.drop_last() =~= s);
    assert(all.last() == c);
    if s.len() > 0 {
        assert(all[all.len() - 2] == s.last());
    }
}

/// A stem is cut to 120 characters, and loses the full stops and blanks at its end
/// before and after that.
pub proof fn long_stems_are_cut(s: Seq<char>)
    ensures
        ({
            let whole = crate::text::trimmed_end(s, Strip::DotOrBlank);
            &&& whole.len() <= 120 ==> shortened(s) == whole
            &&& whole.len() > 120 ==> shortened(s) == crate::text::trimmed_end(
                whole.take(120),
                Strip::DotOrBlank,
            )
        }),
        shortened(s).len() <= 120,
{
    let whole = crate::text::trimmed_end(s, Strip::DotOrBlank);
    if whole.len() > 120 {
        crate::text::lemma_trimmed_end(whole.take(120), Strip::DotOrBlank);
    }
}

/// The names of devices, in any casing: four of their own, and those of the nine
/// serial and the nine parallel ports.
pub proof fn device_names_are_reserved(s: Seq<char>)
    ensures
        ({
            let upper = crate::text::ascii_uppered(s);
            is_reserved(s) <==> (upper == "CON"@ || upper == "PRN"@ || upper == "AUX"@ || upper
                == "NUL"@ || upper.len() == 4 && (upper.subrange(0, 3) == "COM"@ || upper.subrange(
                0,
                3,
            ) == "LPT"@) && '1' <= upper[3] && upper[3] <= '9')
        }),
{
    let upper = crate::text::ascii_uppered(s);
    if upper.len() == 4 {
        assert(upper.take(3) =~= upper.subrange(0, 3));
    }
}

/// A stem is what is left once forbidden characters are replaced, runs of white space
/// are cut, the ends are trimmed and the rest is cut to its length. Where nothing is
/// left there is a name for that, and the name of a device gets a mark behind it.
pub proof fn stems_are_mended(raw: Seq<char>)
    ensures
        cleaned(raw) == shortened(crate::text::trimmed(collapsed(replaced(raw)))),
        cleaned(raw).len() == 0 ==> sanitised(raw) == "Screenshot"@,
        cleaned(raw).len() > 0 && is_reserved(cleaned(raw)) ==> sanitised(raw) == cleaned(raw)
            + seq!['_'],
        cleaned(raw).len() > 0 && !is_reserved(cleaned(raw)) ==> sanitised(raw) == cleaned(raw),
{
    if cleaned(raw).len() > 0 && is_reserved(cleaned(raw)) {
        assert(cleaned(raw).push('_') =~= cleaned(raw) + seq!['_']);
    }
}

proof fn lemma_collapsed_same(s: Seq<char>)
    requires
        no_double_space(s),
    ensures
        collapsed(s) == s,
    decreases s.len(),
{
    if s.len() > 0 {
        let t = s.drop_last();
        assert forall|i: int| 0 < i < t.len() implies !(crate::text::is_space(#[trigger] t[i])
            && crate::text::is_space(t[i - 1])) by {
            assert(t[i] == s[i] && t[i - 1] == s[i - 1]);
        }
        lemma_collapsed_same(t);
        assert(s.last() == s[s.len() - 1]);
        assert(t.push(s.last()) =~= s);
    }
}

/// A stem that can be used as it is stays as it is.
pub proof fn usable_stems_are_kept(raw: Seq<char>)
    requires
        0 < raw.len() <= 120,
        all_legal(raw),
        no_double_space(raw),
        !crate::text::is_space(raw[0]),
        !crate::text::is_space(raw[raw.len() - 1]),
        raw[raw.len() - 1] != '.',
        !is_reserved(raw),
    ensures
        sanitised(raw) == raw,
{
    assert(replaced(raw) =~= raw) by {
        assert forall|i: int| 0 <= i < raw.len() implies replaced(raw)[i] == raw[i] by {
            assert(!is_illegal(raw[i]));
        }
    }
    lemma_collapsed_same(raw);
    assert(raw.last() == raw[raw.len() - 1]);
    assert(raw.first() == raw[0]);
    assert(crate::text::trimmed(raw) == raw);
    assert(!Strip::DotOrBlank.has(raw.last()));
    assert(shortened(raw) == raw);
}

/// The text of a moment is what the user's pattern makes of it where that can be seen,
/// else what the default pattern does.
pub proof fn moments_are_written_after_the_pattern(pattern: Seq<char>, at: &LocalTime)
    ensures
        ({
            let own = crate::clock::strftime_text(
                pattern,
                at.spec_secs(),
                at.spec_nanos(),
                at.spec_offset(),
            );
            &&& own is Some && !crate::text::is_blank(own->0) ==> datetime_text(pattern, at)
                == own->0
            &&& own is None || crate::text::is_blank(own->0) ==> datetime_text(pattern, at)
                == crate::clock::strftime_text(
                "Screenshot_%Y-%m-%d_%H-%M-%S"@,
                at.spec_secs(),
                at.spec_nanos(),
                at.spec_offset(),
            )->0
        }),
{
}

/// How names are put together.
pub proof fn names_are_put_together(
    stem: Seq<char>,
    n: nat,
    padding: nat,
    extension: Seq<char>,
)
    ensures
        dotted(stem, extension) == stem + seq!['.'] + extension,
        numbered(stem, n, padding, extension) == stem + seq!['_'] + crate::text::padded(n, padding)
            + seq!['.'] + extension,
{
    reveal_strlit(".");
    reveal_strlit("_");
    assert("."@ =~= seq!['.']);
    assert("_"@ =~= seq!['_']);
}

/// A preview shows the first name of its kind, with the stored number as it is.
pub proof fn previews_show_the_first_name(
    naming: crate::config::NamingView,
    extension: Seq<char>,
    at: &LocalTime,
)
    ensures
        naming.mode is Datetime ==> previewed(naming, extension, at) == sanitised(
            datetime_text(naming.datetime_pattern, at),
        ) + "."@ + extension,
        naming.mode is Prefix ==> previewed(naming, extension, at) == sanitised(naming.prefix)
            + "_"@ + crate::text::padded(naming.counter as nat, naming.counter_padding as nat)
            + "."@ + extension,
        naming.mode is Datetime ==> stem_of(naming, at) == sanitised(
            datetime_text(naming.datetime_pattern, at),
        ),
        naming.mode is Prefix ==> stem_of(naming, at) == sanitised(naming.prefix),
{
}

/// Which tidy names are tried: by the time of a capture first the plain name, then 2,
/// 3 and so on behind it; by a prefix the stored number, which is never below one,
/// then those after it. There are ten thousand, as far as the numbers reach.
pub proof fn tidy_names_are_counted_up(
    naming: crate::config::NamingView,
    stem: Seq<char>,
    extension: Seq<char>,
    k: int,
)
    requires
        k >= 0,
    ensures
        naming.mode is Datetime ==> tidy_candidate(naming, stem, extension, 0) == stem + "."@
            + extension,
        naming.mode is Datetime && k > 0 ==> tidy_candidate(naming, stem, extension, k) == stem
            + "_"@ + crate::text::decimal((k + 1) as nat) + "."@ + extension,
        naming.mode is Prefix && naming.counter > 0 ==> tidy_candidate(naming, stem, extension, k)
            == stem + "_"@ + crate::text::padded(
            (naming.counter + k) as nat,
            naming.counter_padding as nat,
        ) + "."@ + extension,
        naming.mode is Prefix && naming.counter == 0 ==> tidy_candidate(naming, stem, extension, k)
            == stem + "_"@ + crate::text::padded((1 + k) as nat, naming.counter_padding as nat)
            + "."@ + extension,
        naming.mode is Datetime ==> tidy_count(naming) == 10_000,
        naming.mode is Prefix && naming.counter <= u32::MAX - 10_000 ==> tidy_count(naming)
            == 10_000,
        naming.mode is Prefix && naming.counter > u32::MAX - 10_000 ==> tidy_count(naming)
            == u32::MAX - naming.counter,
        naming.counter > 0 ==> first_number(naming) == naming.counter,
        naming.counter == 0 ==> first_number(naming) == 1,
{
}

/// Which names are tried last: with the present moment behind the stem, then with a
/// number behind that.
pub proof fn stamped_names_carry_the_moment(
    stem: Seq<char>,
    stamp: Seq<char>,
    extension: Seq<char>,
    salt: int,
    now: &LocalTime,
)
    ensures
        stamped_candidate(stem, stamp, extension, 0) == stem + "_"@ + stamp + "."@ + extension,
        salt > 0 ==> stamped_candidate(stem, stamp, extension, salt) == stem + "_"@ + stamp + "-"@
            + crate::text::decimal(salt as nat) + "."@ + extension,
        stamp_of(now) == crate::clock::strftime_text(
            "%Y%m%d-%H%M%S%.3f"@,
            now.spec_secs(),
            now.spec_nanos(),
            now.spec_offset(),
        )->0,
{
}

/// The name that is found is the first that is free: of the tidy names, else of the
/// stamped ones. A number is told exactly where a tidy name with a number was found.
/// Gives the place of the name, among the tidy names or among the stamped ones.
pub proof fn the_first_free_name_is_found<F: Fn(&String) -> bool>(
    probe: F,
    naming: crate::config::NamingView,
    stem: Seq<char>,
    stamp: Seq<char>,
    extension: Seq<char>,
    r: ResolvedName,
) -> (place: (bool, int))
    requires
        is_resolved(probe, naming, stem, stamp, extension, r),
    ensures
        place.1 >= 0,
        place.0 ==> {
            &&& place.1 < tidy_count(naming)
            &&& r.file_name@ == tidy_candidate(naming, stem, extension, place.1)
            &&& answers(probe, r.file_name@, false)
            &&& forall|j: int|
                0 <= j < place.1 ==> answers(
                    probe,
                    #[trigger] tidy_candidate(naming, stem, extension, j),
                    true,
                )
            &&& naming.mode is Datetime ==> r.counter_used is None
            &&& naming.mode is Prefix ==> r.counter_used is Some && r.counter_used->0
                == first_number(naming) + place.1
        },
        !place.0 ==> {
            &&& r.counter_used is None
            &&& forall|j: int|
                0 <= j < tidy_count(naming) ==> answers(
                    probe,
                    #[trigger] tidy_candidate(naming, stem, extension, j),
                    true,
                )
            &&& forall|j: int|
                0 <= j < place.1 ==> answers(
                    probe,
                    #[trigger] stamped_candidate(stem, stamp, extension, j),
                    true,
                )
            &&& place.1 < u32::MAX ==> r.file_name@ == stamped_candidate(
                stem,
                stamp,
                extension,
                place.1,
            ) && answers(probe, r.file_name@, false)
            &&& place.1 >= u32::MAX ==> r.file_name@ == stamped_candidate(stem, stamp, extension, 0)
        },
{
    if exists|k: int|
        {
            &&& #[trigger] is_tidy_choice(probe, naming, stem, extension, k, r.file_name@)
            &&& r.counter_used == match naming.mode {
                NamingMode::Datetime => None::<u32>,
                NamingMode::Prefix => Some((first_number(naming) + k) as u32),
            }
        } {
        let k = choose|k: int|
            {
                &&& #[trigger] is_tidy_choice(probe, naming, stem, extension, k, r.file_name@)
                &&& r.counter_used == match naming.mode {
                    NamingMode::Datetime => None::<u32>,
                    NamingMode::Prefix => Some((first_number(naming) + k) as u32),
                }
            };
        (true, k)
    } else if exists|salt: int| #[trigger]
        is_stamped_choice(probe, stem, stamp, extension, salt, r.file_name@) {
        let salt = choose|salt: int| #[trigger]
            is_stamped_choice(probe, stem, stamp, extension, salt, r.file_name@);
        (false, salt)
    } else {
        (false, u32::MAX as int)
    }
}

/// A name was found as it is said where asking for that very name can give that
/// answer. Gives the name that was asked for.
pub proof fn names_are_asked_for_as_written<F: Fn(&String) -> bool>(
    probe: F,
    name: Seq<char>,
    answer: bool,
) -> (s: String)
    requires
        answers(probe, name, answer),
    ensures
        s@ == name,
        probe.ensures((&s,), answer),
{
    choose|s: String| s@ == name && #[trigger] probe.ensures((&s,), answer)
}

} // verus!
