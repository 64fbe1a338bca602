//! The keys by which pictures are asked for.
//!
//! A key tells of a file without telling its path. It is made of the path, in
//! whatever casing, and of the time at which the file was last changed, so that a
//! changed file has another key.

use std::collections::HashMap;

use vstd::prelude::*;
use vstd::string::*;

use crate::text::{chars_of, hex_text};

verus! {

/// What a key starts from.
pub const BASIS: u64 = 0xcbf2_9ce4_8422_2325;

/// What a key is multiplied by for each byte.
pub const PRIME: u64 = 0x0000_0100_0000_01b3;

/// `str::to_lowercase` of a text.
pub uninterp spec fn lowered(s: Seq<char>) -> Seq<char>;

/// Whether a text has ASCII characters only.
pub open spec fn is_ascii_text(s: Seq<char>) -> bool {
    forall|i: int| 0 <= i < s.len() ==> (#[trigger] s[i] as u32) < 128
}

/// `str::to_lowercase` of the standard library.
///
/// The result depends on the text alone. Of ASCII text it is the text with its
/// capital letters replaced.
#[verifier::external_body]
pub(crate) fn lowercase(s: &str) -> (r: String)
    ensures
        r@ == lowered(s@),
        is_ascii_text(s@) ==> r@ == crate::text::ascii_lowered(s@),
{
    s.to_lowercase()
}

// ---------------------------------------------------------------------------
// Hashing
// ---------------------------------------------------------------------------

/// A hash after one more byte (FNV-1a).
pub open spec fn hashed_byte(h: u64, b: u8) -> u64 {
    (((h ^ (b as u64)) as int * PRIME as int) % 0x1_0000_0000_0000_0000) as u64
}

/// A hash after more bytes.
pub open spec fn hashed(h: u64, bytes: Seq<u8>) -> u64
    decreases bytes.len(),
{
    if bytes.len() == 0 {
        h
    } else {
        hashed_byte(hashed(h, bytes.drop_last()), bytes.last())
    }
}

/// A hash after the `n` lowest bytes of a number, from the lowest.
pub open spec fn hashed_number(h: u64, x: nat, n: nat) -> u64
    decreases n,
{
    if n == 0 {
        h
    } else {
        hashed_number(hashed_byte(h, (x % 256) as u8), x / 256, (n - 1) as nat)
    }
}

/// The hash of a path in lower case, as it is kept in UTF-8.
pub open spec fn path_hash(lower: Seq<char>) -> u64 {
    hashed(BASIS, vstd::utf8::encode_utf8(lower))
}

/// The number in a key.
pub open spec fn key_number(path: Seq<char>, modified_ms: u64) -> u64 {
    hashed_number(path_hash(lowered(path)), modified_ms as nat, 8)
}

/// The key of a file.
pub open spec fn spec_thumbnail_key(path: Seq<char>, modified_ms: u64) -> Seq<char> {
    crate::text::hex(key_number(path, modified_ms) as nat, 16)
}

fn hash_byte(h: u64, b: u8) -> (r: u64)
    ensures
        r == hashed_byte(h, b),
{
    (h ^ (b as u64)).wrapping_mul(PRIME)
}

/// Hashes a path in lower case.
pub(crate) fn hash_text(lower: &str) -> (r: u64)
    ensures
        r == path_hash(lower@),
{
    let bytes: &[u8] = lower.as_bytes();
    let mut h: u64 = BASIS;
    let mut i: usize = 0;
    while i < bytes.len()
        invariant
            0 <= i <= bytes.len(),
            h == hashed(BASIS, bytes@.take(i as int)),
        decreases bytes.len() - i,
    {
        assert(bytes@.take(i + 1).drop_last() =~= bytes@.take(i as int));
        h = hash_byte(h, bytes[i]);
        i += 1;
    }
    assert(bytes@.take(i as int) =~= bytes@);
    h
}

fn hash_number(start: u64, x: u64) -> (r: u64)
    ensures
        r == hashed_number(start, x as nat, 8),
{
    let mut h: u64 = start;
    let mut rest: u64 = x;
    let mut n: u64 = 8;
    while n > 0
        invariant
            0 <= n <= 8,
            hashed_number(start, x as nat, 8) == hashed_number(h, rest as nat, n as nat),
        decreases n,
    {
        h = hash_byte(h, (rest % 256) as u8);
        rest = rest / 256;
        n -= 1;
    }
    h
}

fn key_value(path: &str, modified_ms: u64) -> (r: u64)
    ensures
        r == key_number(path@, modified_ms),
{
    let lower: String = lowercase(path);
    hash_number(hash_text(lower.as_str()), modified_ms)
}

/// The key of a file, from its path and the time of its last change.
pub fn thumbnail_key(path: &str, modified_ms: u64) -> (r: String)
    ensures
        r@ == spec_thumbnail_key(path@, modified_ms),
{
    hex_text(key_value(path, modified_ms))
}

/// The number that sixteen hexadecimal digits stand for.
pub open spec fn is_key_of(text: Seq<char>, n: u64) -> bool {
    crate::text::hex(n as nat, 16) == text
}

/// The digit that a character stands for.
fn hex_value(c: char) -> (r: Option<u8>)
    ensures
        match r {
            Some(d) => d < 16 && crate::text::digit(d as int) == c,
            None => forall|d: int| 0 <= d < 16 ==> #[trigger] crate::text::digit(d) != c,
        },
{
    if '0' <= c && c <= '9' {
        Some(c as u8 - 48)
    } else if 'a' <= c && c <= 'f' {
        Some(c as u8 - 87)
    } else {
        None
    }
}

proof fn lemma_hex_digits(n: nat, width: nat)
    ensures
        crate::text::hex(n, width).len() == width,
        forall|i: int|
            0 <= i < width ==> exists|d: int|
                0 <= d < 16 && #[trigger] crate::text::digit(d) == (
                #[trigger] crate::text::hex(n, width)[i]),
    decreases width,
{
    if width > 0 {
        lemma_hex_digits(n / 16, (width - 1) as nat);
        let all = crate::text::hex(n, width);
        let init = crate::text::hex(n / 16, (width - 1) as nat);
        assert forall|i: int| 0 <= i < width implies exists|d: int|
            0 <= d < 16 && #[trigger] crate::text::digit(d) == (#[trigger] all[i]) by {
            if i < width - 1 {
                assert(all[i] == init[i]);
            } else {
                assert(crate::text::digit((n % 16) as int) == all[i]);
            }
        }
    }
}

/// Reads the number of a key. Only what [`thumbnail_key`] can write is one.
fn parse_key(key: &str) -> (r: Option<u64>)
    ensures
        match r {
            Some(n) => is_key_of(key@, n),
            None => forall|n: u64| !#[trigger] is_key_of(key@, n),
        },
{
    let chars: Vec<char> = chars_of(key);
    proof {
        assert forall|n: u64| #[trigger] is_key_of(key@, n) implies key@.len() == 16 by {
            lemma_hex_digits(n as nat, 16);
        }
    }
    if chars.len() != 16 {
        return None;
    }
    let mut n: u64 = 0;
    let mut i: usize = 0;
    proof {
        vstd::arithmetic::power::lemma_pow0(16);
        assert(key@.take(0) =~= crate::text::hex(0, 0));
    }
    while i < 16
        invariant
            0 <= i <= 16,
            chars.len() == 16,
            chars@ == key@,
            n < vstd::arithmetic::power::pow(16, i as nat),
            crate::text::hex(n as nat, i as nat) == key@.take(i as int),
        decreases 16 - i,
    {
        let d: u8 = match hex_value(chars[i]) {
            Some(d) => d,
            None => {
                proof {
                    assert forall|m: u64| !#[trigger] is_key_of(key@, m) by {
                        lemma_hex_digits(m as nat, 16);
                        if is_key_of(key@, m) {
                            let at = crate::text::hex(m as nat, 16)[i as int];
                            let d = choose|d: int| 0 <= d < 16 && crate::text::digit(d) == at;
                            assert(crate::text::digit(d) != key@[i as int]);
                        }
                    }
                }
                return None;
            },
        };
        let ghost old_n = n as nat;
        let ghost old_i = i as nat;
        proof {
            lemma_pow16(i as nat);
            lemma_pow16_bound(i as nat);
        }
        n = n * 16 + d as u64;
        i += 1;
        proof {
            assert((n as nat) / 16 == old_n && (n as nat) % 16 == d);
            assert(key@.take(i as int) =~= key@.take(old_i as int).push(key@[old_i as int]));
        }
    }
    assert(key@.take(16) =~= key@);
    Some(n)
}

proof fn lemma_pow16(i: nat)
    ensures
        vstd::arithmetic::power::pow(16, i + 1) == 16 * vstd::arithmetic::power::pow(16, i),
{
    vstd::arithmetic::power::lemma_pow_adds(16, 1, i);
    vstd::arithmetic::power::lemma_pow1(16);
}

proof fn lemma_pow16_bound(i: nat)
    requires
        i <= 16,
    ensures
        vstd::arithmetic::power::pow(16, i) <= 0x1_0000_0000_0000_0000,
        i <= 15 ==> vstd::arithmetic::power::pow(16, i) <= 0x1000_0000_0000_0000,
        i == 16 ==> vstd::arithmetic::power::pow(16, i) == 0x1_0000_0000_0000_0000,
{
    reveal_with_fuel(vstd::arithmetic::power::pow, 18);
}

// ---------------------------------------------------------------------------
// Remembered keys
// ---------------------------------------------------------------------------

/// The files that keys were made for.
pub struct KeyCache {
    paths: HashMap<u64, String>,
}

impl View for KeyCache {
    type V = Map<u64, Seq<char>>;

    /// The path for the number of each key.
    closed spec fn view(&self) -> Map<u64, Seq<char>> {
        self.paths@.map_values(|s: String| s@)
    }
}

impl KeyCache {
    /// A cache that knows of no file.
    pub fn new() -> (r: KeyCache)
        ensures
            r@ == Map::<u64, Seq<char>>::empty(),
    {
        broadcast use vstd::std_specs::hash::group_hash_axioms;

        let r: KeyCache = KeyCache { paths: HashMap::new() };
        assert(r@ =~= Map::<u64, Seq<char>>::empty());
        r
    }

    /// Keeps the path of a file under its key.
    pub fn remember(&mut self, path: &str, modified_ms: u64)
        ensures
            final(self)@ == old(self)@.insert(key_number(path@, modified_ms), path@),
    {
        broadcast use vstd::std_specs::hash::group_hash_axioms;

        self.paths.insert(key_value(path, modified_ms), path.to_owned());
        assert(self@ =~= old(self)@.insert(key_number(path@, modified_ms), path@));
    }

    /// The path that is kept under a key.
    pub fn get(&self, key: &str) -> (r: Option<String>)
        ensures
            match r {
                Some(path) => exists|n: u64| #[trigger]
                    is_key_of(key@, n) && self@.contains_key(n) && self@[n] == path@,
                None => forall|n: u64| #[trigger] is_key_of(key@, n) ==> !self@.contains_key(n),
            },
    {
        broadcast use vstd::std_specs::hash::group_hash_axioms;

        let n: u64 = match parse_key(key) {
            Some(n) => n,
            None => {
                return None;
            },
        };
        match self.paths.get(&n) {
            Some(path) => {
                assert(is_key_of(key@, n) && self@.contains_key(n) && self@[n] == path@);
                Some(path.clone())
            },
            None => {
                proof {
                    assert forall|m: u64| #[trigger] is_key_of(key@, m) implies !self@.contains_key(
                        m,
                    ) by {
                        lemma_one_number(key@, m, n);
                    }
                }
                None
            },
        }
    }
}

/// A key stands for one number only.
proof fn lemma_one_number(key: Seq<char>, m: u64, n: u64)
    requires
        is_key_of(key, m),
        is_key_of(key, n),
    ensures
        m == n,
{
    crate::text::lemma_hex_injective(m as nat, n as nat, 16);
    lemma_pow16_bound(16);
    vstd::arithmetic::div_mod::lemma_small_mod(m as nat, 0x1_0000_0000_0000_0000);
    vstd::arithmetic::div_mod::lemma_small_mod(n as nat, 0x1_0000_0000_0000_0000);
}

// ---------------------------------------------------------------------------
// Laws
// ---------------------------------------------------------------------------

/// Only the lower case of a path goes into a key, so its casing does not matter.
pub proof fn keys_ignore_casing(a: Seq<char>, b: Seq<char>, modified_ms: u64)
    requires
        lowered(a) == lowered(b),
    ensures
        spec_thumbnail_key(a, modified_ms) == spec_thumbnail_key(b, modified_ms),
{
}

/// A byte changes the lowest eight bits of a hash, and different bytes change
/// them differently.
proof fn lemma_xor_byte(h: u64, b: u8, c: u8)
    ensures
        (h ^ (b as u64)) as int / 256 == h as int / 256,
        b != c ==> (h ^ (b as u64)) != (h ^ (c as u64)),
{
    assert((h ^ (b as u64)) / 256 == h / 256) by (bit_vector);
    assert(b != c ==> (h ^ (b as u64)) != (h ^ (c as u64))) by (bit_vector);
}

/// Multiplying by the prime loses nothing.
proof fn lemma_prime_injective(x: int, y: int)
    requires
        0 <= x < 0x1_0000_0000_0000_0000,
        0 <= y < 0x1_0000_0000_0000_0000,
        (x * PRIME as int) % 0x1_0000_0000_0000_0000 == (y * PRIME as int)
            % 0x1_0000_0000_0000_0000,
    ensures
        x == y,
{
    let m: int = 0x1_0000_0000_0000_0000;
    let p: int = 0x100_0000_01b3;
    // The prime times this number is one more than a multiple of the modulus.
    let inverse: int = 14_886_173_955_864_302_971;
    let times: int = 887_285_111_055;
    let z = x - y;
    let w = (x * p) / m - (y * p) / m;
    assert(p * inverse == 1 + times * m);
    vstd::arithmetic::div_mod::lemma_fundamental_div_mod(x * p, m);
    vstd::arithmetic::div_mod::lemma_fundamental_div_mod(y * p, m);
    assert(z * p == w * m) by (nonlinear_arith)
        requires
            z == x - y,
            w == (x * p) / m - (y * p) / m,
            x * p == m * ((x * p) / m) + (x * p) % m,
            y * p == m * ((y * p) / m) + (y * p) % m,
            (x * p) % m == (y * p) % m,
    ;
    let n = w * inverse - z * times;
    assert(z == m * n) by (nonlinear_arith)
        requires
            z * p == w * m,
            p * inverse == 1 + times * m,
            n == w * inverse - z * times,
    {
        assert(z * (p * inverse) == (z * p) * inverse);
        assert((z * p) * inverse == w * m * inverse);
        assert(z * (1 + times * m) == z + z * times * m);
        assert(m * n == m * (w * inverse) - m * (z * times));
    }
    assert(n == 0) by (nonlinear_arith)
        requires
            z == m * n,
            -m < z < m,
            m > 0,
    ;
}

/// One step taken from different hashes with one byte keeps them different.
proof fn lemma_step_injective(s: u64, t: u64, b: u8)
    requires
        hashed_byte(s, b) == hashed_byte(t, b),
    ensures
        s == t,
{
    lemma_prime_injective((s ^ (b as u64)) as int, (t ^ (b as u64)) as int);
    assert((s ^ (b as u64)) == (t ^ (b as u64)) ==> s == t) by (bit_vector);
}

/// Steps that end alike started from hashes that are near one another.
proof fn lemma_near(s: u64, b: u8, t: u64, c: u8)
    requires
        hashed_byte(s, b) == hashed_byte(t, c),
    ensures
        -256 < s - t < 256,
        s == t ==> b == c,
{
    lemma_prime_injective((s ^ (b as u64)) as int, (t ^ (c as u64)) as int);
    lemma_xor_byte(s, b, c);
    lemma_xor_byte(t, c, b);
}

/// A hash after the first bytes of a text.
spec fn after_bytes(h: u64, bytes: Seq<u8>, n: nat) -> u64
    decreases n,
{
    if n == 0 {
        h
    } else {
        hashed_byte(after_bytes(h, bytes, (n - 1) as nat), bytes[n - 1])
    }
}

/// How far apart a step takes two hashes: the distance before, changed by at most
/// 510, times the prime, up to multiples of the modulus.
proof fn lemma_distance(s: u64, b: u8, t: u64, c: u8) -> (r: (int, int))
    ensures
        -510 <= r.0 <= 510,
        s == t ==> -255 <= r.0 <= 255,
        s == t && b != c ==> r.0 != 0,
        hashed_byte(s, b) - hashed_byte(t, c) == (s - t + r.0) * PRIME - r.1
            * 0x1_0000_0000_0000_0000,
{
    let m: int = 0x1_0000_0000_0000_0000;
    let x = (s ^ (b as u64)) as int;
    let y = (t ^ (c as u64)) as int;
    lemma_xor_byte(s, b, c);
    lemma_xor_byte(t, c, b);
    let change = (x - s) - (y - t);
    let k = (x * PRIME as int) / m - (y * PRIME as int) / m;
    vstd::arithmetic::div_mod::lemma_fundamental_div_mod(x * PRIME as int, m);
    vstd::arithmetic::div_mod::lemma_fundamental_div_mod(y * PRIME as int, m);
    (change, k)
}

/// Small multiples of the first five powers of the prime, less a small gap, come to
/// a multiple of the modulus only where all of them are zero.
///
/// Each of the numbers `t0` to `t5` is whole, and the modulus times it is a sum of
/// the multiples that is smaller than the modulus. So each is zero, and the
/// multiples are sums of them.
proof fn lemma_no_small_sum(c5: int, c4: int, c3: int, c2: int, c1: int, gap: int, q: int)
    requires
        -255 <= c5 <= 255,
        -510 <= c4 <= 510,
        -510 <= c3 <= 510,
        -510 <= c2 <= 510,
        -510 <= c1 <= 510,
        -256 < gap < 256,
        c5 * 913_917_546_033_277_539 + c4 * 11_527_715_348_014_283_921 + c3
            * 624_165_263_380_053_675 + c2 * 956_575_116_354_345 + c1 * 1_099_511_628_211 == gap + q
            * 0x1_0000_0000_0000_0000,
    ensures
        c5 == 0,
        c4 == 0,
        c3 == 0,
        c2 == 0,
        c1 == 0,
{
    let m: int = 0x1_0000_0000_0000_0000;
    let t0 = -124_794_054_603_275 * c5 - 1_574_092_044_555_980 * c4 - 85_228_819_927_790 * c3
        - 130_618_881_124 * c2 - 150_136_645 * c1 + 2_518_874_921_680_656 * q;
    let t1 = 429_612_729_061_213 * c5 + 5_418_927_858_422_929 * c4 + 293_406_493_123_781 * c3
        + 449_665_123_591 * c2 + 516_856_464 * c1 - 8_671_412_534_092_605 * q;
    let t2 = 120_627_965_424_013 * c5 + 1_521_543_004_020_078 * c4 + 82_383_565_275_305 * c3
        + 126_258_337_595 * c2 + 145_124_526 * c1 - 2_434_785_518_635_867 * q;
    let t3 = 218_517_145_552_210 * c5 + 2_756_269_932_139_765 * c4 + 149_237_545_879_972 * c3
        + 228_716_545_425 * c2 + 262_892_581 * c1 - 4_410_605_614_494_224 * q;
    let t4 = -250_015_799_808_299 * c5 - 3_153_578_772_183_078 * c4 - 170_749_733_620_761 * c3
        - 261_685_415_528 * c2 - 300_787_834 * c1 + 5_046_382_459_189_116 * q;
    let t5 = 401_672_287_653_962 * c5 + 5_066_500_599_926_096 * c4 + 274_324_407_386_829 * c3
        + 420_420_547_747 * c2 + 483_242_009 * c1 - 8_107_455_562_062_582 * q;
    assert(t0 * m == -10_117_495_039_556_816 * c5 + 644_476_066_068_496 * c4
        + 7_704_392_091_402_160 * c3 - 4_253_954_618_046_064 * c2 - 3_431_600_937_981_904 * c1
        - 2_518_874_921_680_656 * gap);
    assert(t1 * m == 964_417_354_571_113 * c5 - 6_415_703_093_100_941 * c4
        + 1_237_812_376_006_721 * c3 - 6_915_764_390_345_669 * c2 + 1_040_540_266_766_169 * c1
        + 8_671_412_534_092_605 * gap);
    assert(t2 * m == 1_150_927_258_463_695 * c5 - 6_373_219_910_648_459 * c4
        + 2_407_835_907_481_655 * c3 + 7_420_022_407_511_405 * c2 + 521_531_150_890_079 * c1
        + 2_434_785_518_635_867 * gap);
    assert(t3 * m == -6_302_646_686_563_376 * c5 + 1_535_281_643_037_936 * c4
        - 5_452_110_822_838_448 * c3 + 559_839_306_353_520 * c2 - 5_164_142_811_992_368 * c1
        + 4_410_605_614_494_224 * gap);
    assert(t4 * m == 4_482_579_670_404_340 * c5 - 5_247_281_785_750_212 * c4
        - 1_973_864_442_898_476 * c3 - 1_178_876_700_584_228 * c2 - 4_977_183_758_088_268 * c1
        - 5_046_382_459_189_116 * gap);
    assert(t5 * m == 10_753_435_092_956_894 * c5 + 1_503_490_379_027_114 * c4
        + 2_833_942_984_976_814 * c3 - 84_464_088_609_638 * c2 - 3_509_890_893_664_258 * c1
        + 8_107_455_562_062_582 * gap);
    assert(t0 == 0 && t1 == 0 && t2 == 0 && t3 == 0 && t4 == 0 && t5 == 0);
    assert(c5 == -498 * t0 - 135 * t1 - 281 * t2 - 653 * t3 + 459 * t4 + 715 * t5);
    assert(c4 == 48 * t0 - 939 * t1 - 995 * t2 + 106 * t3 - 926 * t4 + 684 * t5);
    assert(c3 == 1232 * t0 - 191 * t1 + 551 * t2 - 943 * t3 - 356 * t4 + 713 * t5);
    assert(c2 == -181 * t0 - 970 * t1 + 1392 * t2 + 348 * t3 - 387 * t4 + 133 * t5);
    assert(c1 == -811 * t0 + 527 * t1 - 95 * t2 - 1115 * t3 - 1225 * t4 - 943 * t5);
}

/// Five steps in which the distance of two hashes is changed a little bring them
/// near one another only where it is not changed at all.
proof fn lemma_no_meeting_distance(c: Seq<int>, k: Seq<int>, gap: int)
    requires
        c.len() == 5,
        k.len() == 5,
        -255 <= c[0] <= 255,
        -510 <= c[1] <= 510,
        -510 <= c[2] <= 510,
        -510 <= c[3] <= 510,
        -510 <= c[4] <= 510,
        gap == ((((c[0] * 0x100_0000_01b3 - k[0] * 0x1_0000_0000_0000_0000 + c[1])
            * 0x100_0000_01b3 - k[1] * 0x1_0000_0000_0000_0000 + c[2]) * 0x100_0000_01b3 - k[2]
            * 0x1_0000_0000_0000_0000 + c[3]) * 0x100_0000_01b3 - k[3] * 0x1_0000_0000_0000_0000
            + c[4]) * 0x100_0000_01b3 - k[4] * 0x1_0000_0000_0000_0000,
        -256 < gap < 256,
    ensures
        c[0] == 0,
        c[1] == 0,
        c[2] == 0,
        c[3] == 0,
        c[4] == 0,
{
    // The powers of the prime, and how many times the modulus goes into them.
    let p1: int = 1_099_511_628_211;
    let p2: int = 1_208_925_820_571_204_291_060_521;
    let p3: int = 1_329_227_997_362_564_068_125_063_396_651_957_931;
    let p4: int = 1_461_501_639_643_759_632_241_992_381_230_392_390_794_884_791_441int;
    let over2: int = 65_536;
    let over3: int = 72_057_594_123_452_416;
    let over4: int = 79_228_162_639_644_551_293_944_856_595;
    let over5: int = 87_112_286_104_081_500_251_499_816_140_704_456_780_207int;
    let n = c[0] * over5 + c[1] * over4 + c[2] * over3 + c[3] * over2 - k[0] * p4 - k[1] * p3
        - k[2] * p2 - k[3] * p1 - k[4];
    assert(gap == c[0] * 913_917_546_033_277_539 + c[1] * 11_527_715_348_014_283_921 + c[2]
        * 624_165_263_380_053_675 + c[3] * 956_575_116_354_345 + c[4] * 1_099_511_628_211 + n
        * 0x1_0000_0000_0000_0000);
    lemma_no_small_sum(c[0], c[1], c[2], c[3], c[4], gap, -n);
}

/// Hashes that part at a byte do not meet again within the next five.
proof fn lemma_no_meeting(h: u64, a: Seq<u8>, b: Seq<u8>)
    requires
        a.len() == 6,
        b.len() == 6,
        a[0] != b[0],
    ensures
        after_bytes(h, a, 1) != after_bytes(h, b, 1),
        after_bytes(h, a, 2) != after_bytes(h, b, 2),
        after_bytes(h, a, 3) != after_bytes(h, b, 3),
        after_bytes(h, a, 4) != after_bytes(h, b, 4),
        after_bytes(h, a, 5) != after_bytes(h, b, 5),
        after_bytes(h, a, 6) != after_bytes(h, b, 6),
{
    reveal_with_fuel(after_bytes, 7);
    let s1 = hashed_byte(h, a[0]);
    let s2 = hashed_byte(h, b[0]);
    let t1 = hashed_byte(s1, a[1]);
    let t2 = hashed_byte(s2, b[1]);
    let u1 = hashed_byte(t1, a[2]);
    let u2 = hashed_byte(t2, b[2]);
    let v1 = hashed_byte(u1, a[3]);
    let v2 = hashed_byte(u2, b[3]);
    let w1 = hashed_byte(v1, a[4]);
    let w2 = hashed_byte(v2, b[4]);
    if s1 == s2 {
        lemma_near(h, a[0], h, b[0]);
    }
    let (c0, k0) = lemma_distance(h, a[0], h, b[0]);
    let (c1, k1) = lemma_distance(s1, a[1], s2, b[1]);
    let (c2, k2) = lemma_distance(t1, a[2], t2, b[2]);
    let (c3, k3) = lemma_distance(u1, a[3], u2, b[3]);
    let (c4, k4) = lemma_distance(v1, a[4], v2, b[4]);
    if t1 == t2 {
        lemma_near(s1, a[1], s2, b[1]);
        lemma_no_meeting_distance(seq![0, 0, 0, 0, c0], seq![0, 0, 0, 0, k0], s1 - s2);
    }
    if u1 == u2 {
        lemma_near(t1, a[2], t2, b[2]);
        lemma_no_meeting_distance(seq![0, 0, 0, c0, c1], seq![0, 0, 0, k0, k1], t1 - t2);
    }
    if v1 == v2 {
        lemma_near(u1, a[3], u2, b[3]);
        lemma_no_meeting_distance(seq![0, 0, c0, c1, c2], seq![0, 0, k0, k1, k2], u1 - u2);
    }
    if w1 == w2 {
        lemma_near(v1, a[4], v2, b[4]);
        lemma_no_meeting_distance(seq![0, c0, c1, c2, c3], seq![0, k0, k1, k2, k3], v1 - v2);
    }
    if hashed_byte(w1, a[5]) == hashed_byte(w2, b[5]) {
        lemma_near(w1, a[5], w2, b[5]);
        lemma_no_meeting_distance(
            seq![c0, c1, c2, c3, c4],
            seq![k0, k1, k2, k3, k4],
            w1 - w2,
        );
    }
}

/// The bytes of one number keep different hashes different.
proof fn lemma_number_injective(s: u64, t: u64, x: nat, n: nat)
    requires
        s != t,
    ensures
        hashed_number(s, x, n) != hashed_number(t, x, n),
    decreases n,
{
    if n > 0 {
        let b = (x % 256) as u8;
        if hashed_byte(s, b) == hashed_byte(t, b) {
            lemma_step_injective(s, t, b);
        }
        lemma_number_injective(hashed_byte(s, b), hashed_byte(t, b), x / 256, (n - 1) as nat);
    }
}

/// The six lowest bytes of a number, from the lowest.
spec fn low_bytes(x: nat) -> Seq<u8> {
    seq![
        (x % 256) as u8,
        (x / 256 % 256) as u8,
        (x / 65_536 % 256) as u8,
        (x / 16_777_216 % 256) as u8,
        (x / 4_294_967_296 % 256) as u8,
        (x / 1_099_511_627_776 % 256) as u8,
    ]
}

/// A number after each of its bytes is taken away.
proof fn lemma_shifts(x: nat)
    ensures
        x / 256 / 256 == x / 65_536,
        x / 65_536 / 256 == x / 16_777_216,
        x / 16_777_216 / 256 == x / 4_294_967_296,
        x / 4_294_967_296 / 256 == x / 1_099_511_627_776,
        x / 1_099_511_627_776 / 256 == x / 281_474_976_710_656,
{
}

/// A hash after the eight bytes of a number is one after its six lowest bytes and
/// then after the rest.
proof fn lemma_six_bytes(h: u64, x: nat)
    ensures
        hashed_number(h, x, 8) == hashed_number(
            after_bytes(h, low_bytes(x), 6),
            x / 281_474_976_710_656,
            2,
        ),
{
    reveal_with_fuel(hashed_number, 7);
    reveal_with_fuel(after_bytes, 7);
    lemma_shifts(x);
}

/// Numbers with the same rest and the same six lowest bytes are equal.
proof fn lemma_same_bytes(x: nat, y: nat)
    requires
        x / 281_474_976_710_656 == y / 281_474_976_710_656,
        x % 256 == y % 256,
        x / 256 % 256 == y / 256 % 256,
        x / 65_536 % 256 == y / 65_536 % 256,
        x / 16_777_216 % 256 == y / 16_777_216 % 256,
        x / 4_294_967_296 % 256 == y / 4_294_967_296 % 256,
        x / 1_099_511_627_776 % 256 == y / 1_099_511_627_776 % 256,
    ensures
        x == y,
{
    lemma_shifts(x);
    lemma_shifts(y);
}

/// Six bytes that differ take a hash to different hashes.
proof fn lemma_six_differ(h: u64, a: Seq<u8>, b: Seq<u8>)
    requires
        a.len() == 6,
        b.len() == 6,
        a[0] != b[0] || a[1] != b[1] || a[2] != b[2] || a[3] != b[3] || a[4] != b[4] || a[5]
            != b[5],
    ensures
        after_bytes(h, a, 6) != after_bytes(h, b, 6),
{
    reveal_with_fuel(after_bytes, 7);
    let h1 = hashed_byte(h, a[0]);
    let h2 = hashed_byte(h1, a[1]);
    let h3 = hashed_byte(h2, a[2]);
    let h4 = hashed_byte(h3, a[3]);
    let h5 = hashed_byte(h4, a[4]);
    if a[0] != b[0] {
        lemma_no_meeting(h, a, b);
    } else if a[1] != b[1] {
        lemma_no_meeting(
            h1,
            seq![a[1], a[2], a[3], a[4], a[5], 0],
            seq![b[1], b[2], b[3], b[4], b[5], 0],
        );
    } else if a[2] != b[2] {
        lemma_no_meeting(
            h2,
            seq![a[2], a[3], a[4], a[5], 0, 0],
            seq![b[2], b[3], b[4], b[5], 0, 0],
        );
    } else if a[3] != b[3] {
        lemma_no_meeting(h3, seq![a[3], a[4], a[5], 0, 0, 0], seq![b[3], b[4], b[5], 0, 0, 0]);
    } else if a[4] != b[4] {
        lemma_no_meeting(h4, seq![a[4], a[5], 0, 0, 0, 0], seq![b[4], b[5], 0, 0, 0, 0]);
    } else {
        lemma_no_meeting(h5, seq![a[5], 0, 0, 0, 0, 0], seq![b[5], 0, 0, 0, 0, 0]);
    }
}

/// A file that is changed has another key, as long as both times lie in one
/// stretch of 2^48 milliseconds. The present one runs from 1970 to past the year
/// 10000.
pub proof fn changed_files_have_another_key(path: Seq<char>, before_ms: u64, after_ms: u64)
    requires
        before_ms != after_ms,
        before_ms / 281_474_976_710_656 == after_ms / 281_474_976_710_656,
    ensures
        spec_thumbnail_key(path, before_ms) != spec_thumbnail_key(path, after_ms),
{
    let h = path_hash(lowered(path));
    let x = before_ms as nat;
    let y = after_ms as nat;
    let a = low_bytes(x);
    let b = low_bytes(y);
    lemma_six_bytes(h, x);
    lemma_six_bytes(h, y);
    if a[0] == b[0] && a[1] == b[1] && a[2] == b[2] && a[3] == b[3] && a[4] == b[4] && a[5]
        == b[5] {
        lemma_same_bytes(x, y);
    }
    lemma_six_differ(h, a, b);
    lemma_number_injective(
        after_bytes(h, a, 6),
        after_bytes(h, b, 6),
        x / 281_474_976_710_656,
        2,
    );
    if spec_thumbnail_key(path, before_ms) == spec_thumbnail_key(path, after_ms) {
        lemma_one_number(
            spec_thumbnail_key(path, before_ms),
            key_number(path, before_ms),
            key_number(path, after_ms),
        );
    }
}

/// A hash takes in one byte after the other: each is mixed into the lowest bits, and
/// the whole is multiplied.
pub proof fn hashes_take_in_byte_by_byte(h: u64, bytes: Seq<u8>, b: u8)
    ensures
        hashed(h, Seq::empty()) == h,
        hashed(h, bytes.push(b)) == ((hashed(h, bytes) ^ (b as u64)) as int * 0x100_0000_01b3)
            % 0x1_0000_0000_0000_0000,
{
    assert(bytes.push(b).drop_last() =~= bytes);
}

/// A hash after two runs of bytes is the hash of the second after that of the first.
proof fn lemma_hashed_runs(h: u64, a: Seq<u8>, b: Seq<u8>)
    ensures
        hashed(h, a + b) == hashed(hashed(h, a), b),
    decreases b.len(),
{
    if b.len() == 0 {
        assert(a + b =~= a);
    } else {
        lemma_hashed_runs(h, a, b.drop_last());
        assert((a + b).drop_last() =~= a + b.drop_last());
        assert((a + b).last() == b.last());
    }
}

/// The `n` lowest bytes of a number, from the lowest.
spec fn bytes_up(x: nat, n: nat) -> Seq<u8>
    decreases n,
{
    if n == 0 {
        seq![]
    } else {
        seq![(x % 256) as u8] + bytes_up(x / 256, (n - 1) as nat)
    }
}

proof fn lemma_hashed_bytes_up(h: u64, x: nat, n: nat)
    ensures
        hashed_number(h, x, n) == hashed(h, bytes_up(x, n)),
    decreases n,
{
    if n > 0 {
        let b = (x % 256) as u8;
        lemma_hashed_bytes_up(hashed_byte(h, b), x / 256, (n - 1) as nat);
        lemma_hashed_runs(h, seq![b], bytes_up(x / 256, (n - 1) as nat));
        assert(seq![b].drop_last() =~= Seq::<u8>::empty());
        assert(hashed(h, seq![b]) == hashed_byte(h, b)) by {
            assert(hashed(h, Seq::<u8>::empty()) == h);
        }
    }
}

/// The key of a file is the hash, in sixteen hexadecimal digits, of the path in lower
/// case and of the eight bytes of the time, the lowest first.
pub proof fn a_key_is_the_hash_of_path_and_time(path: Seq<char>, modified_ms: u64)
    ensures
        path_hash(lowered(path)) == hashed(
            0xcbf2_9ce4_8422_2325,
            vstd::utf8::encode_utf8(lowered(path)),
        ),
        key_number(path, modified_ms) == hashed(
            0xcbf2_9ce4_8422_2325,
            vstd::utf8::encode_utf8(lowered(path)) + seq![
                (modified_ms as nat % 256) as u8,
                (modified_ms as nat / 0x100 % 256) as u8,
                (modified_ms as nat / 0x1_0000 % 256) as u8,
                (modified_ms as nat / 0x100_0000 % 256) as u8,
                (modified_ms as nat / 0x1_0000_0000 % 256) as u8,
                (modified_ms as nat / 0x100_0000_0000 % 256) as u8,
                (modified_ms as nat / 0x1_0000_0000_0000 % 256) as u8,
                (modified_ms as nat / 0x100_0000_0000_0000 % 256) as u8,
            ],
        ),
        spec_thumbnail_key(path, modified_ms) == crate::text::hex(
            key_number(path, modified_ms) as nat,
            16,
        ),
        is_key_of(spec_thumbnail_key(path, modified_ms), key_number(path, modified_ms)),
{
    let x = modified_ms as nat;
    let h = path_hash(lowered(path));
    lemma_hashed_bytes_up(h, x, 8);
    lemma_hashed_runs(
        0xcbf2_9ce4_8422_2325,
        vstd::utf8::encode_utf8(lowered(path)),
        bytes_up(x, 8),
    );
    lemma_shifts(x);
    assert(x / 281_474_976_710_656 / 256 == x / 72_057_594_037_927_936);
    reveal_with_fuel(bytes_up, 9);
    assert(bytes_up(x, 8) =~= seq![
        (x % 256) as u8,
        (x / 0x100 % 256) as u8,
        (x / 0x1_0000 % 256) as u8,
        (x / 0x100_0000 % 256) as u8,
        (x / 0x1_0000_0000 % 256) as u8,
        (x / 0x100_0000_0000 % 256) as u8,
        (x / 0x1_0000_0000_0000 % 256) as u8,
        (x / 0x100_0000_0000_0000 % 256) as u8,
    ]);
}

/// A key stands for the one number that it is written as.
pub proof fn a_key_stands_for_one_number(key: Seq<char>, m: u64, n: u64)
    ensures
        is_key_of(key, m) && is_key_of(key, n) ==> m == n,
        is_key_of(key, n) <==> key == crate::text::hex(n as nat, 16),
{
    if is_key_of(key, m) && is_key_of(key, n) {
        lemma_one_number(key, m, n);
    }
}

/// A text is ASCII where each of its characters is.
pub proof fn ascii_is_told_by_each_character(s: Seq<char>)
    ensures
        is_ascii_text(s) <==> forall|i: int| 0 <= i < s.len() ==> #[trigger] s[i] as u32 <= 0x7f,
{
}

} // verus!
