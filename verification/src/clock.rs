//! Points in time, and how they are written.

use chrono::{DateTime, FixedOffset, TimeZone};
use vstd::prelude::*;
use vstd::string::*;

verus! {

/// A moment together with the local time zone's distance from UTC.
#[derive(Debug, Clone, Copy, PartialEq, Eq)]
pub struct LocalTime {
    secs: i64,
    nanos: u32,
    offset: i32,
}

/// Which seconds, nanoseconds and offsets make a moment.
///
/// The seconds count from the start of 1970 in UTC and span the years that a
/// calendar date can have. The nanoseconds reach past a full second only in the
/// last second of a minute, where they tell of a leap second.
pub open spec fn is_moment(secs: i64, nanos: u32, offset: i32) -> bool {
    &&& -8_334_601_228_800 <= secs <= 8_210_266_876_799
    &&& nanos < 1_000_000_000 || (nanos < 2_000_000_000 && secs % 60 == 59)
    &&& -86_400 < offset < 86_400
}

impl LocalTime {
    #[verifier::type_invariant]
    closed spec fn valid(self) -> bool {
        is_moment(self.secs, self.nanos, self.offset)
    }

    /// Seconds since the start of 1970 in UTC.
    pub closed spec fn spec_secs(&self) -> i64 {
        self.secs
    }

    /// Nanoseconds past the second.
    pub closed spec fn spec_nanos(&self) -> u32 {
        self.nanos
    }

    /// Seconds that local time is ahead of UTC.
    pub closed spec fn spec_offset(&self) -> i32 {
        self.offset
    }

    /// Milliseconds since the start of 1970 in UTC.
    pub open spec fn spec_millis(&self) -> int {
        self.spec_secs() * 1000 + self.spec_nanos() as int / 1_000_000
    }

    /// A moment from its parts, where they make one.
    pub fn new(secs: i64, nanos: u32, offset: i32) -> (r: Option<LocalTime>)
        ensures
            r is Some <==> is_moment(secs, nanos, offset),
            r matches Some(t) ==> t.spec_secs() == secs && t.spec_nanos() == nanos
                && t.spec_offset() == offset,
    {
        if secs < -8_334_601_228_800 || secs > 8_210_266_876_799 {
            return None;
        }
        if offset <= -86_400 || offset >= 86_400 {
            return None;
        }
        // Counted from a whole minute before the earliest moment, so that the
        // remainder is that of a number without a sign.
        let shifted: u64 = (secs + 8_334_601_228_800) as u64;
        if nanos >= 2_000_000_000 || (nanos >= 1_000_000_000 && shifted % 60 != 59) {
            return None;
        }
        Some(LocalTime { secs, nanos, offset })
    }

    /// Milliseconds since the start of 1970 in UTC.
    pub fn millis(&self) -> (r: i64)
        ensures
            r == self.spec_millis(),
            r == self.spec_secs() * 1000 + self.spec_nanos() as int / 1_000_000,
    {
        proof {
            use_type_invariant(self);
        }
        self.secs * 1000 + (self.nanos / 1_000_000) as i64
    }

    /// The moment written after a pattern, or nothing where the pattern is bad.
    pub fn format(&self, pattern: &str) -> (r: Option<String>)
        ensures
            match r {
                Some(s) => strftime_text(
                    pattern@,
                    self.spec_secs(),
                    self.spec_nanos(),
                    self.spec_offset(),
                ) == Some(s@),
                None => strftime_text(
                    pattern@,
                    self.spec_secs(),
                    self.spec_nanos(),
                    self.spec_offset(),
                ) is None,
            },
            is_plain_pattern(pattern@) ==> r is Some,
            r matches Some(s) ==> (is_plain_pattern(pattern@) ==> is_drawn_from(s@, pattern@)),
    {
        proof {
            use_type_invariant(self);
        }
        strftime(pattern, self.secs, self.nanos, self.offset)
    }

    /// The moment in the notation of RFC 3339.
    pub fn rfc3339(&self) -> (r: String)
        ensures
            r@ == rfc3339_text(self.spec_secs(), self.spec_nanos(), self.spec_offset()),
            self.is_plain() ==> rfc3339_millis(r@) == Some(self.spec_millis() as i64),
    {
        proof {
            use_type_invariant(self);
        }
        write_rfc3339(self.secs, self.nanos, self.offset)
    }

    /// Whether the notation of RFC 3339 loses nothing of the moment: its year has
    /// four digits, its offset is of whole minutes, and it is no leap second.
    pub open spec fn is_plain(&self) -> bool {
        is_plain_moment(self.spec_secs(), self.spec_nanos(), self.spec_offset())
    }
}

pub open spec fn is_plain_moment(secs: i64, nanos: u32, offset: i32) -> bool {
    &&& nanos < 1_000_000_000
    &&& offset % 60 == 0
    &&& -62_167_219_200 <= secs + offset <= 253_402_300_799
}

/// Whether a pattern is made of characters that stand for themselves and of
/// `%Y`, `%m`, `%d`, `%H`, `%M`, `%S`, `%3f` and `%.3f`.
pub open spec fn is_plain_pattern(p: Seq<char>) -> bool {
    plain_from(p, 0)
}

pub open spec fn plain_from(p: Seq<char>, i: int) -> bool
    decreases p.len() - i,
{
    if i >= p.len() {
        true
    } else if p[i] != '%' {
        plain_from(p, i + 1)
    } else if i + 1 < p.len() && (p[i + 1] == 'Y' || p[i + 1] == 'm' || p[i + 1] == 'd' || p[i + 1]
        == 'H' || p[i + 1] == 'M' || p[i + 1] == 'S') {
        plain_from(p, i + 2)
    } else if i + 2 < p.len() && p[i + 1] == '3' && p[i + 2] == 'f' {
        plain_from(p, i + 3)
    } else {
        &&& i + 3 < p.len()
        &&& p[i + 1] == '.'
        &&& p[i + 2] == '3'
        &&& p[i + 3] == 'f'
        &&& plain_from(p, i + 4)
    }
}

/// Whether every character of a text is a digit, a sign, a full stop or one of the
/// pattern's.
pub open spec fn is_drawn_from(text: Seq<char>, pattern: Seq<char>) -> bool {
    forall|i: int|
        0 <= i < text.len() ==> {
            ||| crate::text::is_digit(#[trigger] text[i])
            ||| text[i] == '+'
            ||| text[i] == '-'
            ||| text[i] == '.'
            ||| pattern.contains(text[i])
        }
}

/// What `DateTime::format` makes of a pattern at a moment; nothing where the
/// pattern cannot be formatted.
pub uninterp spec fn strftime_text(
    pattern: Seq<char>,
    secs: i64,
    nanos: u32,
    offset: i32,
) -> Option<Seq<char>>;

/// What `DateTime::to_rfc3339` writes for a moment.
pub uninterp spec fn rfc3339_text(secs: i64, nanos: u32, offset: i32) -> Seq<char>;

/// The milliseconds of the moment that `DateTime::parse_from_rfc3339` reads;
/// nothing where it finds none.
pub uninterp spec fn rfc3339_millis(text: Seq<char>) -> Option<i64>;

/// `chrono::DateTime::format`, written out with `DelayedFormat::write_to`.
///
/// The text depends on the pattern and the moment alone. A pattern of
/// plain characters and the specifiers for year, month, day, hour, minute,
/// second and three digits of the fraction is always formatted, and brings
/// nothing but digits, signs and full stops into the text. Of other patterns
/// nothing is said but that the result is the named one.
#[verifier::external_body]
fn strftime(pattern: &str, secs: i64, nanos: u32, offset: i32) -> (r: Option<String>)
    requires
        is_moment(secs, nanos, offset),
    ensures
        match r {
            Some(s) => strftime_text(pattern@, secs, nanos, offset) == Some(s@),
            None => strftime_text(pattern@, secs, nanos, offset) is None,
        },
        is_plain_pattern(pattern@) ==> r is Some,
        r matches Some(s) ==> (is_plain_pattern(pattern@) ==> is_drawn_from(s@, pattern@)),
{
    let zone = FixedOffset::east_opt(offset)?;
    let at = zone.timestamp_opt(secs, nanos).single()?;
    let mut out = String::new();
    at.format(pattern).write_to(&mut out).ok()?;
    Some(out)
}

/// `chrono::DateTime::to_rfc3339`.
///
/// The text depends on the moment alone. Where the year has four digits, the
/// offset is of whole minutes and the moment is no leap second,
/// `DateTime::parse_from_rfc3339` reads the same moment back.
#[verifier::external_body]
fn write_rfc3339(secs: i64, nanos: u32, offset: i32) -> (r: String)
    requires
        is_moment(secs, nanos, offset),
    ensures
        r@ == rfc3339_text(secs, nanos, offset),
        is_plain_moment(secs, nanos, offset) ==> rfc3339_millis(r@) == Some(
            (secs * 1000 + nanos as int / 1_000_000) as i64,
        ),
{
    let zone = FixedOffset::east_opt(offset).unwrap();
    zone.timestamp_opt(secs, nanos).unwrap().to_rfc3339()
}

/// `chrono::DateTime::parse_from_rfc3339` and `DateTime::timestamp_millis`.
///
/// The result depends on the text alone.
#[verifier::external_body]
pub(crate) fn parse_rfc3339(text: &str) -> (r: Option<i64>)
    ensures
        r == rfc3339_millis(text@),
{
    let at = DateTime::parse_from_rfc3339(text).ok()?;
    Some(at.timestamp_millis())
}

// ---------------------------------------------------------------------------
// Laws
// ---------------------------------------------------------------------------

/// A moment lies between the first and the last second that a date can have, less
/// than a day from UTC, and has less than a second past its second, or less than two
/// in the last second of a minute.
pub proof fn moments_have_their_limits(secs: i64, nanos: u32, offset: i32)
    ensures
        is_moment(secs, nanos, offset) <==> {
            &&& secs >= -8_334_601_228_800
            &&& secs <= 8_210_266_876_799
            &&& offset > -24 * 60 * 60
            &&& offset < 24 * 60 * 60
            &&& nanos < 2_000_000_000
            &&& nanos >= 1_000_000_000 ==> (secs - 59) % 60 == 0
        },
        is_plain_moment(secs, nanos, offset) <==> {
            &&& nanos <= 999_999_999
            &&& offset % 60 == 0
            &&& secs + offset >= -62_167_219_200
            &&& secs + offset < 253_402_300_800
        },
{
}

/// The milliseconds of a moment are those of its second and the whole ones past it.
pub proof fn milliseconds_are_whole(at: LocalTime)
    ensures
        at.spec_millis() * 1_000_000 <= at.spec_secs() * 1_000_000_000 + at.spec_nanos()
            < at.spec_millis() * 1_000_000 + 1_000_000,
        at.is_plain() <==> is_plain_moment(at.spec_secs(), at.spec_nanos(), at.spec_offset()),
{
}

/// A plain pattern is made of characters that stand for themselves and of the
/// specifiers for the year, the month, the day, the hour, the minute, the second and
/// three digits of the fraction, one after the other.
pub proof fn plain_patterns_are_read_piece_by_piece(p: Seq<char>, i: int)
    requires
        0 <= i <= p.len(),
    ensures
        is_plain_pattern(p) <==> plain_from(p, 0),
        plain_from(p, p.len() as int),
        i < p.len() && p[i] != '%' ==> (plain_from(p, i) <==> plain_from(p, i + 1)),
        i + 1 < p.len() && p[i] == '%' && seq!['Y', 'm', 'd', 'H', 'M', 'S'].contains(p[i + 1])
            ==> (plain_from(p, i) <==> plain_from(p, i + 2)),
        i + 2 < p.len() && p[i] == '%' && p[i + 1] == '3' && p[i + 2] == 'f' ==> (plain_from(p, i)
            <==> plain_from(p, i + 3)),
        i + 3 < p.len() && p[i] == '%' && p[i + 1] == '.' && p[i + 2] == '3' && p[i + 3] == 'f'
            ==> (plain_from(p, i) <==> plain_from(p, i + 4)),
        i + 1 == p.len() && p[i] == '%' ==> !plain_from(p, i),
        i + 1 < p.len() && p[i] == '%' && !seq!['Y', 'm', 'd', 'H', 'M', 'S', '3', '.'].contains(
            p[i + 1],
        ) ==> !plain_from(p, i),
{
    let short = seq!['Y', 'm', 'd', 'H', 'M', 'S'];
    let all = seq!['Y', 'm', 'd', 'H', 'M', 'S', '3', '.'];
    assert(all[0] == 'Y' && all[1] == 'm' && all[2] == 'd' && all[3] == 'H' && all[4] == 'M'
        && all[5] == 'S' && all[6] == '3' && all[7] == '.');
    if i + 1 < p.len() && short.contains(p[i + 1]) {
        let k = choose|k: int| 0 <= k < short.len() && short[k] == p[i + 1];
        assert(k == 0 || k == 1 || k == 2 || k == 3 || k == 4 || k == 5);
    }
}

/// A text is drawn from a pattern where each of its characters is a digit, a sign, a
/// full stop or one of the pattern's.
pub proof fn drawn_texts_bring_nothing_else(text: Seq<char>, pattern: Seq<char>)
    ensures
        is_drawn_from(text, pattern) <==> forall|i: int|
            0 <= i < text.len() ==> ('0' <= #[trigger] text[i] <= '9' || text[i] == '+' || text[i]
                == '-' || text[i] == '.' || pattern.contains(text[i])),
{
}

} // verus!
