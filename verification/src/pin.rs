//! Captures that float above all other windows.

use vstd::prelude::*;
use vstd::string::*;

use crate::history::{file_name_of, media_url};
use crate::text::{decimal_text, same};

verus! {

/// What the labels of the windows start with.
pub const PIN_PREFIX: &'static str = "pin-";

/// The label of the window of a number.
pub open spec fn pin_label(id: u64) -> Seq<char> {
    PIN_PREFIX@ + crate::text::decimal(id as nat)
}

/// Writes the label of the window of a number.
pub fn label_of(id: u64) -> (r: String)
    ensures
        r@ == pin_label(id),
        r@ == "pin-"@ + crate::text::decimal(id as nat),
{
    let mut label: String = PIN_PREFIX.to_owned();
    label.append(decimal_text(id).as_str());
    label
}

/// The lowest number whose window is not open.
///
/// `is_open` says whether there is a window of a label.
pub fn next_pin_id<F: Fn(&String) -> bool>(is_open: F) -> (r: u64)
    requires
        forall|s: String| is_open.requires((&s,)),
    ensures
        r >= 1,
        forall|id: u64|
            1 <= id < r ==> crate::naming::answers(is_open, #[trigger] pin_label(id), true),
        r < u64::MAX ==> crate::naming::answers(is_open, pin_label(r), false),
{
    let mut id: u64 = 1;
    while id < u64::MAX
        invariant
            id >= 1,
            forall|s: String| is_open.requires((&s,)),
            forall|k: u64|
                1 <= k < id ==> crate::naming::answers(is_open, #[trigger] pin_label(k), true),
        decreases u64::MAX - id,
    {
        let label: String = label_of(id);
        let open: bool = is_open(&label);
        assert(crate::naming::answers(is_open, label@, open));
        if !open {
            return id;
        }
        id += 1;
    }
    id
}

// ---------------------------------------------------------------------------
// Which capture a window shows
// ---------------------------------------------------------------------------

/// The path of the capture that each window shows.
pub struct PinRegistry {
    pins: Vec<(String, String)>,
}

/// What pairs of a label and a path say. A later pair counts.
pub open spec fn pairs_map(pairs: Seq<(String, String)>) -> Map<Seq<char>, Seq<char>>
    decreases pairs.len(),
{
    if pairs.len() == 0 {
        Map::empty()
    } else {
        pairs_map(pairs.drop_last()).insert(pairs.last().0@, pairs.last().1@)
    }
}

impl View for PinRegistry {
    type V = Map<Seq<char>, Seq<char>>;

    closed spec fn view(&self) -> Map<Seq<char>, Seq<char>> {
        pairs_map(self.pins@)
    }
}

impl PinRegistry {
    /// No window is open.
    pub fn new() -> (r: PinRegistry)
        ensures
            r@ == Map::<Seq<char>, Seq<char>>::empty(),
    {
        PinRegistry { pins: Vec::new() }
    }

    /// A window shows a capture.
    pub fn insert(&mut self, label: String, path: String)
        ensures
            final(self)@ == old(self)@.insert(label@, path@),
    {
        let ghost before = self.pins@;
        self.pins.push((label, path));
        assert(self.pins@.drop_last() =~= before);
    }

    /// The capture that a window shows.
    pub fn get(&self, label: &str) -> (r: Result<String, String>)
        ensures
            if self@.contains_key(label@) {
                r matches Ok(path) && path@ == self@[label@]
            } else {
                r matches Err(e) && e@ == "this pin has no capture"@
            },
    {
        let mut i: usize = self.pins.len();
        assert(self.pins@.take(self.pins@.len() as int) =~= self.pins@);
        while i > 0
            invariant
                0 <= i <= self.pins.len(),
                self@.contains_key(label@) == pairs_map(self.pins@.take(i as int)).contains_key(
                    label@,
                ),
                self@.contains_key(label@) ==> self@[label@] == pairs_map(
                    self.pins@.take(i as int),
                )[label@],
            decreases i,
        {
            assert(self.pins@.take(i as int).drop_last() =~= self.pins@.take(i - 1));
            assert(self.pins@.take(i as int).last() == self.pins@[i - 1]);
            if same(self.pins[i - 1].0.as_str(), label) {
                return Ok(self.pins[i - 1].1.clone());
            }
            i -= 1;
        }
        Err("this pin has no capture".to_owned())
    }

    /// A window is closed.
    pub fn remove(&mut self, label: &str)
        ensures
            final(self)@ == old(self)@.remove(label@),
    {
        let mut kept: Vec<(String, String)> = Vec::new();
        let mut i: usize = 0;
        assert(self.pins@.take(0) =~= seq![]);
        assert(Map::<Seq<char>, Seq<char>>::empty().remove(label@) =~= Map::<
            Seq<char>,
            Seq<char>,
        >::empty());
        while i < self.pins.len()
            invariant
                0 <= i <= self.pins.len(),
                *self == *old(self),
                pairs_map(kept@) == pairs_map(self.pins@.take(i as int)).remove(label@),
            decreases self.pins.len() - i,
        {
            let ghost seen = self.pins@.take(i as int);
            let ghost before = kept@;
            proof {
                assert(self.pins@.take(i + 1).drop_last() =~= seen);
                assert(self.pins@.take(i + 1).last() == self.pins@[i as int]);
            }
            if !same(self.pins[i].0.as_str(), label) {
                let pair: (String, String) = (self.pins[i].0.clone(), self.pins[i].1.clone());
                kept.push(pair);
                proof {
                    assert(kept@.drop_last() =~= before);
                    assert(pairs_map(kept@) =~= pairs_map(self.pins@.take(i + 1)).remove(label@));
                }
            } else {
                assert(pairs_map(kept@) =~= pairs_map(self.pins@.take(i + 1)).remove(label@));
            }
            i += 1;
        }
        assert(self.pins@.take(i as int) =~= self.pins@);
        self.pins = kept;
    }
}

/// What a window needs to show itself.
#[derive(Debug)]
pub struct PinState {
    pub image_url: String,
    pub file_name: String,
}

/// What the window of a capture shows. `key` is the key of the capture's file, or
/// nothing where the file cannot be read.
pub fn pin_state(path: &str, key: Option<String>) -> (r: Result<PinState, String>)
    ensures
        match key {
            Some(key) => {
                &&& r matches Ok(state)
                &&& state.image_url@ == crate::history::url_of("full"@, key@)
                &&& state.file_name@ == crate::history::spec_file_name(path@)
            },
            None => r matches Err(e) && e@ == "capture is unreadable"@,
        },
        key matches Some(key) ==> (r matches Ok(state) ==> state.image_url@ == "http://"@ + "snipd"@
            + ".localhost/"@ + "full"@ + "?k="@ + key@),
{
    match key {
        Some(key) => Ok(
            PinState { image_url: media_url(key.as_str()), file_name: file_name_of(path) },
        ),
        None => Err("capture is unreadable".to_owned()),
    }
}

// ---------------------------------------------------------------------------
// Laws
// ---------------------------------------------------------------------------

/// Windows of different numbers have different labels, so that a new window never
/// takes the place of one that is open.
pub proof fn labels_differ(a: u64, b: u64)
    requires
        a != b,
    ensures
        pin_label(a) != pin_label(b),
{
    if pin_label(a) == pin_label(b) {
        let n = PIN_PREFIX@.len() as int;
        assert(pin_label(a).skip(n) =~= crate::text::decimal(a as nat));
        assert(pin_label(b).skip(n) =~= crate::text::decimal(b as nat));
        crate::text::lemma_decimal_injective(a as nat, b as nat);
    }
}

/// Closing one window leaves the others alone.
pub proof fn closing_leaves_the_others(
    pins: Map<Seq<char>, Seq<char>>,
    closed: Seq<char>,
    other: Seq<char>,
)
    requires
        other != closed,
        pins.contains_key(other),
    ensures
        pins.remove(closed).contains_key(other),
        pins.remove(closed)[other] == pins[other],
        !pins.remove(closed).contains_key(closed),
{
}

/// A label is that of its number, and of pairs the last of a label counts.
pub proof fn the_last_pair_of_a_label_counts(
    id: u64,
    pairs: Seq<(String, String)>,
    label: String,
    path: String,
    other: Seq<char>,
)
    ensures
        pin_label(id) == "pin-"@ + crate::text::decimal(id as nat),
        pairs_map(Seq::empty()) == Map::<Seq<char>, Seq<char>>::empty(),
        pairs_map(pairs.push((label, path))).contains_key(label@),
        pairs_map(pairs.push((label, path)))[label@] == path@,
        other != label@ ==> (pairs_map(pairs.push((label, path))).contains_key(other) <==> pairs_map(
            pairs,
        ).contains_key(other)),
        other != label@ && pairs_map(pairs).contains_key(other) ==> pairs_map(
            pairs.push((label, path)),
        )[other] == pairs_map(pairs)[other],
{
    assert(pairs.push((label, path)).drop_last() =~= pairs);
}

} // verus!
