//! Text as a sequence of characters.

use vstd::prelude::*;
use vstd::string::*;

verus! {

/// `String::push` of the standard library: the character is added at the end.
pub assume_specification[ String::push ](s: &mut String, c: char)
    ensures
        final(s)@ == old(s)@.push(c),
;

// ---------------------------------------------------------------------------
// Character classes
// ---------------------------------------------------------------------------

/// The Unicode `White_Space` property.
pub open spec fn is_space(c: char) -> bool {
    let u = c as u32;
    ||| 0x09 <= u <= 0x0d
    ||| u == 0x20
    ||| u == 0x85
    ||| u == 0xa0
    ||| u == 0x1680
    ||| 0x2000 <= u <= 0x200a
    ||| u == 0x2028
    ||| u == 0x2029
    ||| u == 0x202f
    ||| u == 0x205f
    ||| u == 0x3000
}

/// The Unicode general category `Cc`.
pub open spec fn is_control(c: char) -> bool {
    let u = c as u32;
    u <= 0x1f || 0x7f <= u <= 0x9f
}

pub fn space(c: char) -> (r: bool)
    ensures
        r == is_space(c),
{
    let u: u32 = c as u32;
    (0x09 <= u && u <= 0x0d) || u == 0x20 || u == 0x85 || u == 0xa0 || u == 0x1680 || (0x2000 <= u
        && u <= 0x200a) || u == 0x2028 || u == 0x2029 || u == 0x202f || u == 0x205f || u == 0x3000
}

pub fn control(c: char) -> (r: bool)
    ensures
        r == is_control(c),
{
    let u: u32 = c as u32;
    u <= 0x1f || (0x7f <= u && u <= 0x9f)
}

/// A set of characters that can be taken off the ends of a text.
#[derive(Debug, Clone, Copy, PartialEq, Eq, Structural)]
pub enum Strip {
    /// Any white space.
    Space,
    /// Full stops and plain spaces, which Windows drops from the end of a name.
    DotOrBlank,
    /// The padding of a fixed-size buffer.
    Nul,
}

impl Strip {
    pub open spec fn has(self, c: char) -> bool {
        match self {
            Strip::Space => is_space(c),
            Strip::DotOrBlank => c == '.' || c == ' ',
            Strip::Nul => c == '\0',
        }
    }

    pub fn contains(self, c: char) -> (r: bool)
        ensures
            r == self.has(c),
    {
        match self {
            Strip::Space => space(c),
            Strip::DotOrBlank => c == '.' || c == ' ',
            Strip::Nul => c == '\0',
        }
    }
}

// ---------------------------------------------------------------------------
// Trimming
// ---------------------------------------------------------------------------

/// `s` without the trailing characters of `set`.
pub open spec fn trimmed_end(s: Seq<char>, set: Strip) -> Seq<char>
    decreases s.len(),
{
    if s.len() > 0 && set.has(s.last()) {
        trimmed_end(s.drop_last(), set)
    } else {
        s
    }
}

/// `s` without the leading characters of `set`.
pub open spec fn trimmed_start(s: Seq<char>, set: Strip) -> Seq<char>
    decreases s.len(),
{
    if s.len() > 0 && set.has(s.first()) {
        trimmed_start(s.drop_first(), set)
    } else {
        s
    }
}

/// `s` without white space at either end.
pub open spec fn trimmed(s: Seq<char>) -> Seq<char> {
    trimmed_start(trimmed_end(s, Strip::Space), Strip::Space)
}

/// Nothing but white space.
pub open spec fn is_blank(s: Seq<char>) -> bool {
    forall|i: int| 0 <= i < s.len() ==> is_space(#[trigger] s[i])
}

/// Trimming at the end keeps a prefix that does not end in the set.
pub proof fn lemma_trimmed_end(s: Seq<char>, set: Strip)
    ensures
        trimmed_end(s, set).len() <= s.len(),
        trimmed_end(s, set) == s.take(trimmed_end(s, set).len() as int),
        trimmed_end(s, set).len() > 0 ==> !set.has(trimmed_end(s, set).last()),
        forall|i: int| trimmed_end(s, set).len() <= i < s.len() ==> set.has(#[trigger] s[i]),
    decreases s.len(),
{
    if s.len() > 0 && set.has(s.last()) {
        let t = s.drop_last();
        lemma_trimmed_end(t, set);
        let n = trimmed_end(t, set).len() as int;
        assert(t.take(n) =~= s.take(n));
        assert forall|i: int| n <= i < s.len() implies set.has(#[trigger] s[i]) by {
            if i < t.len() {
                assert(t[i] == s[i]);
            }
        }
    } else {
        assert(s.take(s.len() as int) =~= s);
    }
}

/// Trimming at the start keeps a suffix that does not begin in the set.
pub proof fn lemma_trimmed_start(s: Seq<char>, set: Strip)
    ensures
        trimmed_start(s, set).len() <= s.len(),
        trimmed_start(s, set) == s.skip(s.len() - trimmed_start(s, set).len()),
        trimmed_start(s, set).len() > 0 ==> !set.has(trimmed_start(s, set).first()),
        forall|i: int| 0 <= i < s.len() - trimmed_start(s, set).len() ==> set.has(#[trigger] s[i]),
    decreases s.len(),
{
    if s.len() > 0 && set.has(s.first()) {
        let t = s.drop_first();
        lemma_trimmed_start(t, set);
        let n = trimmed_start(t, set).len() as int;
        assert(t.skip(t.len() - n) =~= s.skip(s.len() - n));
        assert forall|i: int| 0 <= i < s.len() - n implies set.has(#[trigger] s[i]) by {
            if i > 0 {
                assert(t[i - 1] == s[i]);
            }
        }
    } else {
        assert(s.skip(0) =~= s);
    }
}

// ---------------------------------------------------------------------------
// Characters in and out of strings
// ---------------------------------------------------------------------------

/// The characters of a string, one by one.
pub fn chars_of(s: &str) -> (r: Vec<char>)
    ensures
        r@ == s@,
{
    let mut out: Vec<char> = Vec::new();
    for c in it: s.chars()
        invariant
            out@.len() == it.index(),
            it.seq() == s@,
            out@ =~= s@.take(it.index() as int),
    {
        out.push(c);
    }
    assert(s@.take(s@.len() as int) =~= s@);
    out
}

/// The string of the characters from `from` up to `to`.
pub fn string_of(chars: &Vec<char>, from: usize, to: usize) -> (r: String)
    requires
        from <= to <= chars.len(),
    ensures
        r@ == chars@.subrange(from as int, to as int),
{
    let mut out: String = String::new();
    let mut i: usize = from;
    while i < to
        invariant
            from <= i <= to <= chars.len(),
            out@ =~= chars@.subrange(from as int, i as int),
        decreases to - i,
    {
        out.push(chars[i]);
        i += 1;
    }
    out
}

/// Whether two strings hold the same characters.
pub fn same(a: &str, b: &str) -> (r: bool)
    ensures
        r == (a@ == b@),
{
    a.to_owned() == b.to_owned()
}

/// Whether a string holds no character but white space.
pub fn blank(s: &str) -> (r: bool)
    ensures
        r == is_blank(s@),
{
    let chars: Vec<char> = chars_of(s);
    let mut i: usize = 0;
    while i < chars.len()
        invariant
            0 <= i <= chars.len(),
            chars@ == s@,
            forall|j: int| 0 <= j < i ==> is_space(#[trigger] s@[j]),
        decreases chars.len() - i,
    {
        if !space(chars[i]) {
            assert(!is_space(s@[i as int]));
            return false;
        }
        i += 1;
    }
    true
}

/// Takes the characters of `set` off the end.
pub fn trim_end(s: &str, set: Strip) -> (r: String)
    ensures
        r@ == trimmed_end(s@, set),
{
    let chars: Vec<char> = chars_of(s);
    let mut end: usize = chars.len();
    assert(s@.take(s@.len() as int) =~= s@);
    while end > 0 && set.contains(chars[end - 1])
        invariant
            0 <= end <= chars.len(),
            chars@ == s@,
            trimmed_end(s@, set) == trimmed_end(s@.take(end as int), set),
        decreases end,
    {
        assert(s@.take(end as int).drop_last() =~= s@.take(end - 1));
        end -= 1;
    }
    assert(chars@.subrange(0, end as int) =~= s@.take(end as int));
    string_of(&chars, 0, end)
}

/// Takes white space off both ends.
pub fn trim(s: &str) -> (r: String)
    ensures
        r@ == trimmed(s@),
{
    let head: String = trim_end(s, Strip::Space);
    let chars: Vec<char> = chars_of(head.as_str());
    let mut start: usize = 0;
    assert(head@.skip(0) =~= head@);
    while start < chars.len() && space(chars[start])
        invariant
            0 <= start <= chars.len(),
            chars@ == head@,
            trimmed_start(head@, Strip::Space) == trimmed_start(
                head@.skip(start as int),
                Strip::Space,
            ),
        decreases chars.len() - start,
    {
        assert(head@.skip(start as int).drop_first() =~= head@.skip(start + 1));
        start += 1;
    }
    let n: usize = chars.len();
    assert(chars@.subrange(start as int, n as int) =~= head@.skip(start as int));
    string_of(&chars, start, n)
}

// ---------------------------------------------------------------------------
// ASCII case
// ---------------------------------------------------------------------------

pub open spec fn ascii_lower(c: char) -> char {
    if 'A' <= c <= 'Z' {
        ((c as u32) + 32) as char
    } else {
        c
    }
}

pub open spec fn ascii_upper(c: char) -> char {
    if 'a' <= c <= 'z' {
        ((c as u32) - 32) as char
    } else {
        c
    }
}

/// `s` with its ASCII letters in lower case.
pub open spec fn ascii_lowered(s: Seq<char>) -> Seq<char> {
    s.map_values(|c: char| ascii_lower(c))
}

/// `s` with its ASCII letters in upper case.
pub open spec fn ascii_uppered(s: Seq<char>) -> Seq<char> {
    s.map_values(|c: char| ascii_upper(c))
}

pub fn to_ascii_lower(s: &str) -> (r: String)
    ensures
        r@ == ascii_lowered(s@),
{
    let chars: Vec<char> = chars_of(s);
    let mut out: String = String::new();
    let mut i: usize = 0;
    while i < chars.len()
        invariant
            0 <= i <= chars.len(),
            chars@ == s@,
            out@ =~= ascii_lowered(s@).take(i as int),
        decreases chars.len() - i,
    {
        let c: char = chars[i];
        if 'A' <= c && c <= 'Z' {
            out.push(((c as u8) + 32) as char);
        } else {
            out.push(c);
        }
        i += 1;
    }
    assert(ascii_lowered(s@).take(i as int) =~= ascii_lowered(s@));
    out
}

pub fn to_ascii_upper(s: &str) -> (r: String)
    ensures
        r@ == ascii_uppered(s@),
{
    let chars: Vec<char> = chars_of(s);
    let mut out: String = String::new();
    let mut i: usize = 0;
    while i < chars.len()
        invariant
            0 <= i <= chars.len(),
            chars@ == s@,
            out@ =~= ascii_uppered(s@).take(i as int),
        decreases chars.len() - i,
    {
        let c: char = chars[i];
        if 'a' <= c && c <= 'z' {
            out.push(((c as u8) - 32) as char);
        } else {
            out.push(c);
        }
        i += 1;
    }
    assert(ascii_uppered(s@).take(i as int) =~= ascii_uppered(s@));
    out
}

// ---------------------------------------------------------------------------
// Numbers
// ---------------------------------------------------------------------------

/// The character of a decimal or hexadecimal digit.
pub open spec fn digit(d: int) -> char {
    if d < 10 {
        (48 + d) as char
    } else {
        (87 + d) as char
    }
}

/// `n` in base ten, without leading zeros.
pub open spec fn decimal(n: nat) -> Seq<char>
    decreases n,
{
    if n < 10 {
        seq![digit(n as int)]
    } else {
        decimal(n / 10).push(digit((n % 10) as int))
    }
}

/// `n` in base ten, filled up with leading zeros to at least `width` digits.
pub open spec fn padded(n: nat, width: nat) -> Seq<char> {
    let plain = decimal(n);
    if plain.len() < width {
        Seq::new((width - plain.len()) as nat, |i: int| '0') + plain
    } else {
        plain
    }
}

/// The last `width` digits of `n` in base sixteen.
pub open spec fn hex(n: nat, width: nat) -> Seq<char>
    decreases width,
{
    if width == 0 {
        seq![]
    } else {
        hex(n / 16, (width - 1) as nat).push(digit((n % 16) as int))
    }
}

fn digit_char(d: u8) -> (r: char)
    requires
        d < 16,
    ensures
        r == digit(d as int),
{
    if d < 10 {
        (48 + d) as char
    } else {
        (87 + d) as char
    }
}

/// Writes a number in base ten.
pub fn decimal_text(n: u64) -> (r: String)
    ensures
        r@ == decimal(n as nat),
    decreases n,
{
    if n < 10 {
        let mut out: String = String::new();
        out.push(digit_char(n as u8));
        assert(out@ =~= seq![digit(n as int)]);
        out
    } else {
        let mut out: String = decimal_text(n / 10);
        out.push(digit_char((n % 10) as u8));
        out
    }
}

/// Writes a number in base ten with at least `width` digits.
pub fn padded_text(n: u64, width: usize) -> (r: String)
    ensures
        r@ == padded(n as nat, width as nat),
{
    let plain: String = decimal_text(n);
    let len: usize = chars_of(plain.as_str()).len();
    let mut out: String = String::new();
    let mut i: usize = len;
    while i < width
        invariant
            len == plain@.len(),
            len <= i,
            i <= width || i == len,
            out@ =~= Seq::new((i - len) as nat, |k: int| '0'),
        decreases width - i,
    {
        out.push('0');
        i += 1;
    }
    let ghost zeros = out@;
    out.append(plain.as_str());
    assert(out@ =~= padded(n as nat, width as nat));
    out
}

/// Writes a number in base sixteen with sixteen digits.
pub fn hex_text(n: u64) -> (r: String)
    ensures
        r@ == hex(n as nat, 16),
{
    hex_digits(n, 16)
}

fn hex_digits(n: u64, width: usize) -> (r: String)
    ensures
        r@ == hex(n as nat, width as nat),
    decreases width,
{
    if width == 0 {
        String::new()
    } else {
        let mut out: String = hex_digits(n / 16, width - 1);
        out.push(digit_char((n % 16) as u8));
        out
    }
}

/// The value a digit stands for.
pub open spec fn digit_value(c: char) -> int {
    if (c as int) < 87 {
        c as int - 48
    } else {
        c as int - 87
    }
}

pub open spec fn is_digit(c: char) -> bool {
    '0' <= c <= '9'
}

/// A number is written in digits.
pub proof fn lemma_decimal_digits(n: nat)
    ensures
        forall|i: int| 0 <= i < decimal(n).len() ==> is_digit(#[trigger] decimal(n)[i]),
    decreases n,
{
    assert(is_digit(digit((n % 10) as int)));
    if n >= 10 {
        let head = decimal(n / 10);
        lemma_decimal_digits(n / 10);
        assert forall|i: int| 0 <= i < decimal(n).len() implies is_digit(
            #[trigger] decimal(n)[i],
        ) by {
            if i < head.len() {
                assert(decimal(n)[i] == head[i]);
            }
        }
    }
}

/// Different numbers are written differently.
pub proof fn lemma_decimal_injective(a: nat, b: nat)
    requires
        decimal(a) == decimal(b),
    ensures
        a == b,
    decreases a,
{
    lemma_decimal_len(a);
    lemma_decimal_len(b);
    let da = decimal(a);
    let db = decimal(b);
    assert(da.last() == db.last());
    assert(digit_value(da.last()) == a % 10);
    assert(digit_value(db.last()) == b % 10);
    if a < 10 {
        if b >= 10 {
            lemma_decimal_len(b / 10);
            assert(db.len() >= 2);
        }
    } else {
        if b < 10 {
            lemma_decimal_len(a / 10);
            assert(da.len() >= 2);
        }
        assert(da.drop_last() =~= decimal(a / 10));
        assert(db.drop_last() =~= decimal(b / 10));
        lemma_decimal_injective(a / 10, b / 10);
    }
}

/// A number has at least one digit, and only digits.
pub proof fn lemma_decimal_len(n: nat)
    ensures
        decimal(n).len() >= 1,
        forall|i: int| 0 <= i < decimal(n).len() ==> '0' <= #[trigger] decimal(n)[i] <= '9',
    decreases n,
{
    if n >= 10 {
        lemma_decimal_len(n / 10);
    }
}

/// The number written by a run of digits.
pub open spec fn number_of(s: Seq<char>) -> int
    decreases s.len(),
{
    if s.len() == 0 {
        0
    } else {
        number_of(s.drop_last()) * 10 + digit_value(s.last())
    }
}

pub proof fn lemma_decimal_value(n: nat)
    ensures
        number_of(decimal(n)) == n,
    decreases n,
{
    if n < 10 {
        let s = decimal(n);
        assert(s.drop_last() =~= seq![]);
        assert(number_of(s.drop_last()) == 0);
        assert(s.last() == digit(n as int));
    } else {
        lemma_decimal_value(n / 10);
        assert(decimal(n).drop_last() =~= decimal(n / 10));
    }
}

proof fn lemma_leading_zeros(k: nat, s: Seq<char>)
    ensures
        number_of(Seq::new(k, |i: int| '0') + s) == number_of(s),
    decreases s.len(), k,
{
    let zeros = Seq::new(k, |i: int| '0');
    if s.len() > 0 {
        lemma_leading_zeros(k, s.drop_last());
        assert((zeros + s).drop_last() =~= zeros + s.drop_last());
    } else if k > 0 {
        let fewer = Seq::new((k - 1) as nat, |i: int| '0');
        lemma_leading_zeros((k - 1) as nat, s);
        assert((zeros + s).drop_last() =~= fewer + s);
    } else {
        assert(zeros + s =~= s);
    }
}

/// A number that is filled up with zeroes reads back as the number.
pub proof fn padded_numbers_read_back(n: nat, width: nat)
    ensures
        number_of(padded(n, width)) == n,
{
    lemma_decimal_value(n);
    let plain = decimal(n);
    if plain.len() < width {
        lemma_leading_zeros((width - plain.len()) as nat, plain);
    }
}

/// Two numbers of at most sixteen hexadecimal digits that read alike are equal.
pub proof fn lemma_hex_injective(a: nat, b: nat, width: nat)
    requires
        hex(a, width) == hex(b, width),
    ensures
        a % vstd::arithmetic::power::pow(16, width) as nat == b % vstd::arithmetic::power::pow(
            16,
            width,
        ) as nat,
    decreases width,
{
    vstd::arithmetic::power::lemma_pow_positive(16, width);
    if width == 0 {
        vstd::arithmetic::power::lemma_pow0(16);
    } else {
        let w = (width - 1) as nat;
        let ha = hex(a, width);
        let hb = hex(b, width);
        assert(ha.last() == hb.last());
        assert(digit_value(ha.last()) == a % 16);
        assert(digit_value(hb.last()) == b % 16);
        assert(ha.drop_last() =~= hex(a / 16, w));
        assert(hb.drop_last() =~= hex(b / 16, w));
        lemma_hex_injective(a / 16, b / 16, w);
        vstd::arithmetic::power::lemma_pow_positive(16, w);
        vstd::arithmetic::power::lemma_pow_adds(16, 1, w);
        vstd::arithmetic::power::lemma_pow1(16);
        let p = vstd::arithmetic::power::pow(16, w);
        vstd::arithmetic::div_mod::lemma_mod_breakdown(a as int, 16, p);
        vstd::arithmetic::div_mod::lemma_mod_breakdown(b as int, 16, p);
    }
}

// ---------------------------------------------------------------------------
// Searching
// ---------------------------------------------------------------------------

/// Whether `needle` stands in `s` at `i`.
pub open spec fn stands_at(s: Seq<char>, needle: Seq<char>, i: int) -> bool {
    0 <= i && i + needle.len() <= s.len() && s.subrange(i, i + needle.len()) == needle
}

/// Whether `needle` stands anywhere in `s`.
pub open spec fn has_text(s: Seq<char>, needle: Seq<char>) -> bool {
    exists|i: int| stands_at(s, needle, i)
}

/// Looks for one string in another.
pub fn contains(s: &str, needle: &str) -> (r: bool)
    ensures
        r == has_text(s@, needle@),
{
    let hay: Vec<char> = chars_of(s);
    let sub: Vec<char> = chars_of(needle);
    if sub.len() > hay.len() {
        return false;
    }
    let last: usize = hay.len() - sub.len();
    let mut i: usize = 0;
    while i <= last
        invariant
            hay@ == s@,
            sub@ == needle@,
            last == hay.len() - sub.len(),
            i <= last + 1,
            forall|k: int| 0 <= k < i ==> !stands_at(s@, needle@, k),
        decreases last + 1 - i,
    {
        let mut j: usize = 0;
        while j < sub.len() && hay[i + j] == sub[j]
            invariant
                hay@ == s@,
                sub@ == needle@,
                i + sub.len() <= hay.len(),
                0 <= j <= sub.len(),
                forall|k: int| 0 <= k < j ==> hay@[i + k] == sub@[k],
            decreases sub.len() - j,
        {
            j += 1;
        }
        if j == sub.len() {
            assert(s@.subrange(i as int, i + needle@.len()) =~= needle@);
            assert(stands_at(s@, needle@, i as int));
            return true;
        }
        proof {
            if stands_at(s@, needle@, i as int) {
                assert(s@.subrange(i as int, i + needle@.len())[j as int] == needle@[j as int]);
            }
        }
        i += 1;
    }
    false
}

/// The index of the first `c`, or the length where there is none.
pub open spec fn first_index(s: Seq<char>, c: char) -> int
    decreases s.len(),
{
    if s.len() == 0 || s.first() == c {
        0
    } else {
        1 + first_index(s.drop_first(), c)
    }
}

pub proof fn lemma_first_index(s: Seq<char>, c: char)
    ensures
        0 <= first_index(s, c) <= s.len(),
        first_index(s, c) < s.len() ==> s[first_index(s, c)] == c,
        forall|i: int| 0 <= i < first_index(s, c) ==> #[trigger] s[i] != c,
    decreases s.len(),
{
    if s.len() > 0 && s.first() != c {
        let t = s.drop_first();
        lemma_first_index(t, c);
        assert forall|i: int| 0 <= i < first_index(s, c) implies #[trigger] s[i] != c by {
            if i > 0 {
                assert(t[i - 1] == s[i]);
            }
        }
    }
}

// ---------------------------------------------------------------------------
// Laws
// ---------------------------------------------------------------------------

/// Which characters are white space, and which are control characters.
pub proof fn what_is_white_space(c: char)
    ensures
        is_space(c) <==> (c == '\t' || c == '\n' || c == '\u{0b}' || c == '\u{0c}' || c == '\r' || c
            == ' ' || c == '\u{85}' || c == '\u{a0}' || c == '\u{1680}' || c == '\u{2000}' || c
            == '\u{2001}' || c == '\u{2002}' || c == '\u{2003}' || c == '\u{2004}' || c
            == '\u{2005}' || c == '\u{2006}' || c == '\u{2007}' || c == '\u{2008}' || c
            == '\u{2009}' || c == '\u{200a}' || c == '\u{2028}' || c == '\u{2029}' || c
            == '\u{202f}' || c == '\u{205f}' || c == '\u{3000}'),
        is_control(c) <==> c < ' ' || '\u{7f}' <= c < '\u{a0}',
        Strip::Space.has(c) <==> is_space(c),
        Strip::DotOrBlank.has(c) <==> c == '.' || c == ' ',
        Strip::Nul.has(c) <==> c == '\0',
{
}

/// Trimming leaves a stretch of the text that neither starts nor ends in white
/// space, with nothing but white space round it. Gives where it starts and ends.
pub proof fn trimming_takes_white_space_off(s: Seq<char>) -> (ends: (int, int))
    ensures
        0 <= ends.0 <= ends.1 <= s.len(),
        trimmed(s) == s.subrange(ends.0, ends.1),
        forall|i: int| 0 <= i < ends.0 ==> is_space(#[trigger] s[i]),
        forall|i: int| ends.1 <= i < s.len() ==> is_space(#[trigger] s[i]),
        ends.0 < ends.1 ==> !is_space(s[ends.0]) && !is_space(s[ends.1 - 1]),
{
    let head = trimmed_end(s, Strip::Space);
    let bare = trimmed(s);
    lemma_trimmed_end(s, Strip::Space);
    lemma_trimmed_start(head, Strip::Space);
    let from = head.len() - bare.len();
    let to = head.len() as int;
    assert(bare =~= s.subrange(from, to));
    assert forall|i: int| 0 <= i < from implies is_space(#[trigger] s[i]) by {
        assert(Strip::Space.has(head[i]));
        assert(head[i] == s[i]);
    }
    assert forall|i: int| to <= i < s.len() implies is_space(#[trigger] s[i]) by {
        assert(Strip::Space.has(s[i]));
    }
    if from < to {
        assert(bare.first() == s[from]);
        assert(head.last() == s[to - 1]);
    }
    (from, to)
}

/// Trimming at the end leaves the text up to its last character that is not in the
/// set.
pub proof fn trimming_the_end_stops_at_the_last(s: Seq<char>, set: Strip, n: int)
    requires
        0 <= n <= s.len(),
        forall|i: int| n <= i < s.len() ==> set.has(#[trigger] s[i]),
        n > 0 ==> !set.has(s[n - 1]),
    ensures
        trimmed_end(s, set) == s.take(n),
{
    lemma_trimmed_end(s, set);
    let m = trimmed_end(s, set).len() as int;
    if m < n {
        assert(set.has(s[n - 1]));
    }
    if m > n {
        assert(trimmed_end(s, set).last() == s[m - 1]);
    }
}

/// A text is blank where none of its characters can be seen, and then nothing is
/// left of it.
pub proof fn blank_texts_trim_to_nothing(s: Seq<char>)
    ensures
        is_blank(s) <==> trimmed(s).len() == 0,
        is_blank(s) <==> forall|i: int| 0 <= i < s.len() ==> is_space(#[trigger] s[i]),
{
    let ends = trimming_takes_white_space_off(s);
    if trimmed(s).len() > 0 {
        assert(!is_space(s[ends.0]));
    }
}

/// Only the letters from A to Z change their case, each to the same letter, and a
/// text keeps its length.
pub proof fn only_ascii_letters_change_case(s: Seq<char>, i: int)
    requires
        0 <= i < s.len(),
    ensures
        ascii_lowered(s).len() == s.len(),
        ascii_uppered(s).len() == s.len(),
        'A' <= s[i] <= 'Z' ==> ascii_lowered(s)[i] as int - 'a' as int == s[i] as int - 'A' as int,
        !('A' <= s[i] <= 'Z') ==> ascii_lowered(s)[i] == s[i],
        'a' <= s[i] <= 'z' ==> ascii_uppered(s)[i] as int - 'A' as int == s[i] as int - 'a' as int,
        !('a' <= s[i] <= 'z') ==> ascii_uppered(s)[i] == s[i],
{
}

/// A number in base ten is the digits of a tenth of it, then the digit of what is
/// left. A number of one digit is that digit.
pub proof fn numbers_are_written_digit_by_digit(q: nat, d: nat)
    requires
        d < 10,
    ensures
        decimal(d) == seq![(d + 48) as char],
        q > 0 ==> decimal(10 * q + d) == decimal(q) + seq![(d + 48) as char],
{
    let n = 10 * q + d;
    assert(n / 10 == q && n % 10 == d);
    if q > 0 {
        assert(decimal(n) =~= decimal(q) + seq![(d + 48) as char]);
    }
}

/// A number that is filled up has zeros before its digits, as many as are missing.
pub proof fn numbers_are_filled_up_with_zeros(n: nat, width: nat)
    ensures
        width <= decimal(n).len() ==> padded(n, width) == decimal(n),
        width > decimal(n).len() ==> padded(n, width).len() == width && padded(n, width).skip(
            width - decimal(n).len(),
        ) == decimal(n) && forall|i: int|
            0 <= i < width - decimal(n).len() ==> #[trigger] padded(n, width)[i] == '0',
{
    if width > decimal(n).len() {
        assert(padded(n, width).skip(width - decimal(n).len()) =~= decimal(n));
    }
}

/// A number in base sixteen is written digit by digit too, with small letters for
/// the digits from ten on.
pub proof fn hexadecimal_is_written_digit_by_digit(q: nat, d: nat, width: nat)
    requires
        d < 16,
    ensures
        hex(q, 0) == Seq::<char>::empty(),
        d < 10 ==> hex(16 * q + d, width + 1) == hex(q, width) + seq![('0' as int + d) as char],
        d >= 10 ==> hex(16 * q + d, width + 1) == hex(q, width) + seq![
            ('a' as int + (d - 10)) as char,
        ],
        hex(q, width).len() == width,
    decreases width,
{
    let n = 16 * q + d;
    assert(n / 16 == q && n % 16 == d);
    assert(hex(n, width + 1) =~= hex(q, width) + seq![digit(d as int)]);
    if width > 0 {
        hexadecimal_is_written_digit_by_digit(q / 16, 0, (width - 1) as nat);
    }
}

/// A text holds another exactly where the other stands at some place of it.
pub proof fn texts_are_found_anywhere(s: Seq<char>, needle: Seq<char>, i: int)
    ensures
        has_text(s, needle) <==> exists|k: int|
            0 <= k <= s.len() - needle.len() && #[trigger] s.subrange(k, k + needle.len())
                == needle,
        0 <= i && i + needle.len() <= s.len() && s.subrange(i, i + needle.len()) == needle
            ==> has_text(s, needle),
        needle.len() == 0 ==> has_text(s, needle),
        has_text(s, s),
{
    if has_text(s, needle) {
        let k = choose|k: int| stands_at(s, needle, k);
        assert(s.subrange(k, k + needle.len()) == needle);
    }
    if exists|k: int|
        0 <= k <= s.len() - needle.len() && #[trigger] s.subrange(k, k + needle.len()) == needle {
        let k = choose|k: int|
            0 <= k <= s.len() - needle.len() && #[trigger] s.subrange(k, k + needle.len())
                == needle;
        assert(stands_at(s, needle, k));
    }
    if 0 <= i && i + needle.len() <= s.len() && s.subrange(i, i + needle.len()) == needle {
        assert(stands_at(s, needle, i));
    }
    if needle.len() == 0 {
        assert(s.subrange(0, 0) =~= needle);
        assert(stands_at(s, needle, 0));
    }
    assert(s.subrange(0, s.len() as int) =~= s);
    assert(stands_at(s, s, 0));
}

} // verus!
