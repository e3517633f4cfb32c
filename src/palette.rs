//! Parsing of the terminal's answers to color queries: the 256-entry
//! palette (OSC 4) and the default foreground and background (OSC 10, 11).
//!
//! The bytes are read from the terminal elsewhere; everything here is a
//! function of the bytes received.

use crate::text::utf8_slice;
use vstd::prelude::*;
use vstd::utf8::valid_utf8;

verus! {

pub type Rgb = (u8, u8, u8);

/// The terminal's default foreground and background colors.
#[derive(Debug, Clone, Copy, PartialEq, Eq)]
pub struct DefaultColors {
    pub fg: Rgb,
    pub bg: Rgb,
}

// ---------------------------------------------------------------------------
// Byte-level helpers

pub open spec fn is_space(b: u8) -> bool {
    b == 32 || (9 <= b && b <= 13)
}

pub open spec fn trim_start(s: Seq<u8>) -> Seq<u8>
    decreases s.len(),
{
    if s.len() > 0 && is_space(s[0]) {
        trim_start(s.drop_first())
    } else {
        s
    }
}

pub open spec fn trim_end(s: Seq<u8>) -> Seq<u8>
    decreases s.len(),
{
    if s.len() > 0 && is_space(s.last()) {
        trim_end(s.drop_last())
    } else {
        s
    }
}

/// `s` without leading and trailing ASCII whitespace.
pub open spec fn trim(s: Seq<u8>) -> Seq<u8> {
    trim_end(trim_start(s))
}

/// Index of the first `b` in `s` at or after `i`.
pub open spec fn find_from(s: Seq<u8>, b: u8, i: int) -> Option<int>
    decreases s.len() - i,
{
    if i < 0 || i >= s.len() {
        None
    } else if s[i] == b {
        Some(i)
    } else {
        find_from(s, b, i + 1)
    }
}

/// Index of the first `b` in `s`.
pub open spec fn find_byte(s: Seq<u8>, b: u8) -> Option<int> {
    find_from(s, b, 0)
}

proof fn lemma_sub(s: Seq<u8>, lo: int, hi: int, a: int, b: int)
    requires
        0 <= lo <= hi <= s.len(),
        0 <= a <= b <= hi - lo,
    ensures
        s.subrange(lo, hi).subrange(a, b) == s.subrange(lo + a, lo + b),
{
    assert(s.subrange(lo, hi).subrange(a, b) =~= s.subrange(lo + a, lo + b));
}

pub open spec fn hex_digit(b: u8) -> Option<nat> {
    if 48 <= b && b <= 57 {
        Some((b - 48) as nat)
    } else if 97 <= b && b <= 102 {
        Some((b - 87) as nat)
    } else if 65 <= b && b <= 70 {
        Some((b - 55) as nat)
    } else {
        None
    }
}

/// The value of a non-empty run of digits in base `radix` (10 or 16).
pub open spec fn digits_value(s: Seq<u8>, radix: nat) -> Option<nat>
    decreases s.len(),
{
    if s.len() == 0 {
        None
    } else {
        let d = hex_digit(s.last());
        if d is None || d.unwrap() >= radix {
            None
        } else if s.len() == 1 {
            d
        } else {
            match digits_value(s.drop_last(), radix) {
                Some(v) => Some(v * radix + d.unwrap()),
                None => None,
            }
        }
    }
}

/// A number as Rust's integer parsing reads it: an optional `+`, then digits.
pub open spec fn number_value(s: Seq<u8>, radix: nat) -> Option<nat> {
    if s.len() > 0 && s[0] == 43 {
        digits_value(s.drop_first(), radix)
    } else {
        digits_value(s, radix)
    }
}

/// One color channel of `n` hex digits, scaled to 0..=255 with rounding.
pub open spec fn component_value(s: Seq<u8>) -> Option<u8> {
    let t = trim(s);
    if t.len() == 0 || t.len() * 4 > 64 {
        None
    } else {
        let max = (pow_nat(16, t.len()) - 1) as nat;
        match number_value(t, 16) {
            Some(v) => Some(((v * 255 + max / 2) / max) as u8),
            None => None,
        }
    }
}

/// The first three `/`-separated channels of `values`; more are ignored.
pub open spec fn three_channels(values: Seq<u8>) -> Option<Rgb> {
    match find_byte(values, 47) {
        None => None,
        Some(a) => {
            let rest1 = values.subrange(a + 1, values.len() as int);
            match find_byte(rest1, 47) {
                None => None,
                Some(b) => {
                    let rest2 = rest1.subrange(b + 1, rest1.len() as int);
                    let c3 = match find_byte(rest2, 47) {
                        Some(c) => rest2.subrange(0, c),
                        None => rest2,
                    };
                    match (component_value(values.subrange(0, a)), component_value(rest1.subrange(0, b)), component_value(c3)) {
                        (Some(r), Some(g), Some(bl)) => Some((r, g, bl)),
                        _ => None,
                    }
                },
            }
        },
    }
}

/// `rgb:R/G/B` or `rgba:R/G/B/...`: three channels after the model.
pub open spec fn rgb_value(payload: Seq<u8>) -> Option<Rgb> {
    match find_byte(payload, 58) {
        None => None,
        Some(k) => {
            let model = payload.subrange(0, k);
            if model != seq![114u8, 103u8, 98u8] && model != seq![114u8, 103u8, 98u8, 97u8] {
                None
            } else {
                three_channels(payload.subrange(k + 1, payload.len() as int))
            }
        },
    }
}

/// A palette answer `4;INDEX;rgb:R/G/B`: the slot and its color.
pub open spec fn palette_message(m: Seq<u8>) -> Option<(nat, Rgb)> {
    match find_byte(m, 59) {
        None => None,
        Some(i) => {
            let rest = m.subrange(i + 1, m.len() as int);
            if m.subrange(0, i) != seq![52u8] {
                None
            } else {
                match find_byte(rest, 59) {
                    None => None,
                    Some(j) => match number_value(trim(rest.subrange(0, j)), 10) {
                        Some(index) => if index < 256 {
                            match rgb_value(rest.subrange(j + 1, rest.len() as int)) {
                                Some(c) => Some((index, c)),
                                None => None,
                            }
                        } else {
                            None
                        },
                        None => None,
                    },
                }
            }
        },
    }
}

// ---------------------------------------------------------------------------
// Executable parsers over byte ranges

fn is_space_exec(b: u8) -> (r: bool)
    ensures
        r == is_space(b),
{
    b == 32 || (9 <= b && b <= 13)
}

/// The bounds of `s[lo..hi]` once trimmed.
#[verifier::spinoff_prover]
#[verifier::rlimit(30)]
fn trim_range(s: &[u8], lo: usize, hi: usize) -> (r: (usize, usize))
    requires
        lo <= hi <= s@.len(),
    ensures
        lo <= r.0 <= r.1 <= hi,
        s@.subrange(r.0 as int, r.1 as int) == trim(s@.subrange(lo as int, hi as int)),
{
    let mut a = lo;
    while a < hi && is_space_exec(s[a])
        invariant
            lo <= a <= hi <= s@.len(),
            trim_start(s@.subrange(lo as int, hi as int)) == trim_start(s@.subrange(a as int, hi as int)),
        decreases hi - a,
    {
        assert(s@.subrange(a as int, hi as int).drop_first() == s@.subrange(a as int + 1, hi as int));
        a += 1;
    }
    let mut b = hi;
    while b > a && is_space_exec(s[b - 1])
        invariant
            lo <= a <= b <= hi <= s@.len(),
            trim_start(s@.subrange(a as int, hi as int)) == s@.subrange(a as int, hi as int),
            trim_end(s@.subrange(a as int, hi as int)) == trim_end(s@.subrange(a as int, b as int)),
        decreases b - a,
    {
        assert(s@.subrange(a as int, b as int).drop_last() == s@.subrange(a as int, b as int - 1));
        b -= 1;
    }
    (a, b)
}

#[verifier::spinoff_prover]
#[verifier::rlimit(30)]
fn find_byte_exec(s: &[u8], lo: usize, hi: usize, b: u8) -> (r: Option<usize>)
    requires
        lo <= hi <= s@.len(),
    ensures
        r is None ==> find_byte(s@.subrange(lo as int, hi as int), b) is None,
        r is Some ==> lo <= r.unwrap() < hi && find_byte(s@.subrange(lo as int, hi as int), b) == Some(r.unwrap() - lo),
{
    let ghost t = s@.subrange(lo as int, hi as int);
    let mut i = lo;
    while i < hi
        invariant
            lo <= i <= hi <= s@.len(),
            t == s@.subrange(lo as int, hi as int),
            find_from(t, b, 0) == find_from(t, b, i - lo),
        decreases hi - i,
    {
        if s[i] == b {
            return Some(i);
        }
        i += 1;
    }
    None
}

fn hex_digit_exec(b: u8) -> (r: Option<u8>)
    ensures
        r is None <==> hex_digit(b) is None,
        r is Some ==> r.unwrap() as nat == hex_digit(b).unwrap() && r.unwrap() < 16,
{
    if 48 <= b && b <= 57 {
        Some(b - 48)
    } else if 97 <= b && b <= 102 {
        Some(b - 87)
    } else if 65 <= b && b <= 70 {
        Some(b - 55)
    } else {
        None
    }
}

pub open spec fn pow_nat(b: nat, n: nat) -> nat
    decreases n,
{
    if n == 0 {
        1
    } else {
        b * pow_nat(b, (n - 1) as nat)
    }
}

proof fn lemma_pow_monotone(b: nat, m: nat, n: nat)
    requires
        b >= 1,
        m <= n,
    ensures
        pow_nat(b, m) <= pow_nat(b, n),
        pow_nat(b, m) >= 1,
    decreases n,
{
    if n > 0 && m < n {
        lemma_pow_monotone(b, m, (n - 1) as nat);
        assert(pow_nat(b, (n - 1) as nat) <= b * pow_nat(b, (n - 1) as nat)) by (nonlinear_arith)
            requires
                b >= 1,
        ;
    } else if n > 0 {
        lemma_pow_monotone(b, 0, (n - 1) as nat);
        assert(b * pow_nat(b, (n - 1) as nat) >= 1) by (nonlinear_arith)
            requires
                b >= 1,
                pow_nat(b, (n - 1) as nat) >= 1,
        ;
    }
}

/// The value of the digits in `s[lo..hi]`, if they are all digits of `radix`
/// and their number is at most `max_len`.
#[verifier::spinoff_prover]
#[verifier::rlimit(30)]
fn digits_exec(s: &[u8], lo: usize, hi: usize, radix: u8, max_len: usize) -> (r: Option<u64>)
    requires
        lo <= hi <= s@.len(),
        radix == 10 || radix == 16,
        max_len <= 16,
        hi - lo <= max_len,
        radix == 10 ==> max_len <= 3,
    ensures
        r is None <==> digits_value(s@.subrange(lo as int, hi as int), radix as nat) is None,
        r is Some ==> r.unwrap() as nat == digits_value(s@.subrange(lo as int, hi as int), radix as nat).unwrap(),
        r is Some ==> (r.unwrap() as nat) < pow_nat(radix as nat, (hi - lo) as nat),
{
    if lo == hi {
        return None;
    }
    let mut v: u64 = 0;
    let mut i = lo;
    while i < hi
        invariant
            lo <= i <= hi <= s@.len(),
            hi - lo <= max_len <= 16,
            radix == 10 || radix == 16,
            radix == 10 ==> max_len <= 3,
            i > lo ==> digits_value(s@.subrange(lo as int, i as int), radix as nat) == Some(v as nat),
            i > lo ==> (v as nat) < pow_nat(radix as nat, (i - lo) as nat),
            i == lo ==> v == 0,
        decreases hi - i,
    {
        let d = match hex_digit_exec(s[i]) {
            Some(d) => d,
            None => {
                proof {
                    lemma_digits_none_at(s@.subrange(lo as int, hi as int), (i - lo) as int, radix as nat);
                }
                return None;
            },
        };
        if d >= radix {
            proof {
                lemma_digits_none_at(s@.subrange(lo as int, hi as int), (i - lo) as int, radix as nat);
            }
            return None;
        }
        proof {
            let k = (i - lo) as nat;
            assert(s@.subrange(lo as int, i as int + 1).drop_last() == s@.subrange(lo as int, i as int));
            assert(s@.subrange(lo as int, i as int + 1).last() == s@[i as int]);
            lemma_pow_monotone(radix as nat, k + 1, 16);
            reveal_with_fuel(pow_nat, 17);
            if radix == 10 {
                lemma_pow_monotone(10, k + 1, 3);
                assert(pow_nat(10, 3) == 1000);
            } else {
                assert(pow_nat(16, 16) == 18446744073709551616);
            }
            assert((v as nat) * (radix as nat) + (d as nat) < pow_nat(radix as nat, k) * (radix as nat)) by (nonlinear_arith)
                requires
                    (v as nat) < pow_nat(radix as nat, k) || (k == 0 && v == 0),
                    (d as nat) < (radix as nat),
                    pow_nat(radix as nat, k) >= 1,
            {
            }
            lemma_pow_monotone(radix as nat, 0, k);
            assert(pow_nat(radix as nat, k + 1) == (radix as nat) * pow_nat(radix as nat, k));
        }
        v = v * (radix as u64) + (d as u64);
        i += 1;
    }
    proof {
        assert(s@.subrange(lo as int, hi as int) == s@.subrange(lo as int, i as int));
    }
    Some(v)
}

proof fn lemma_digits_none_at(t: Seq<u8>, k: int, radix: nat)
    requires
        0 <= k < t.len(),
        hex_digit(t[k]) is None || hex_digit(t[k]).unwrap() >= radix,
    ensures
        digits_value(t, radix) is None,
    decreases t.len(),
{
    if k < t.len() - 1 {
        lemma_digits_none_at(t.drop_last(), k, radix);
    }
}


proof fn lemma_digits_prefix(t: Seq<u8>, k: int, radix: nat)
    requires
        1 <= k <= t.len(),
        digits_value(t, radix) is Some,
    ensures
        digits_value(t.subrange(0, k), radix) is Some,
        digits_value(t.subrange(0, k), radix).unwrap() <= digits_value(t, radix).unwrap(),
    decreases t.len(),
{
    if k == t.len() {
        assert(t.subrange(0, k) == t);
    } else {
        assert(t.drop_last().subrange(0, k) == t.subrange(0, k));
        lemma_digits_prefix(t.drop_last(), k, radix);
        let v = digits_value(t.drop_last(), radix).unwrap();
        assert(v * radix + hex_digit(t.last()).unwrap() >= v) by (nonlinear_arith)
            requires
                radix >= 1,
        ;
    }
}

/// A palette index: a decimal number below 256, with an optional `+`.
#[verifier::spinoff_prover]
#[verifier::rlimit(30)]
fn index_exec(s: &[u8], lo: usize, hi: usize) -> (r: Option<u64>)
    requires
        lo <= hi <= s@.len(),
    ensures
        r is Some <==> (number_value(s@.subrange(lo as int, hi as int), 10) is Some
            && number_value(s@.subrange(lo as int, hi as int), 10).unwrap() < 256),
        r is Some ==> r.unwrap() as nat == number_value(s@.subrange(lo as int, hi as int), 10).unwrap(),
{
    let start = if hi > lo && s[lo] == 43u8 {
        lo + 1
    } else {
        lo
    };
    proof {
        if hi > lo && s@[lo as int] == 43u8 {
            assert(s@.subrange(lo as int, hi as int).drop_first() == s@.subrange(lo as int + 1, hi as int));
        }
    }
    let ghost t = s@.subrange(start as int, hi as int);
    proof {
        assert(number_value(s@.subrange(lo as int, hi as int), 10) == digits_value(t, 10));
    }
    if start == hi {
        return None;
    }
    let mut v: u64 = 0;
    let mut i = start;
    while i < hi
        invariant
            lo <= start < hi <= s@.len(),
            start <= i <= hi,
            t == s@.subrange(start as int, hi as int),
            number_value(s@.subrange(lo as int, hi as int), 10) == digits_value(t, 10),
            i > start ==> digits_value(s@.subrange(start as int, i as int), 10) == Some(v as nat),
            i == start ==> v == 0,
            v < 256,
        decreases hi - i,
    {
        let d = match hex_digit_exec(s[i]) {
            Some(d) => d,
            None => {
                proof {
                    assert(t[(i - start) as int] == s@[i as int]);
                    lemma_digits_none_at(t, (i - start) as int, 10);
                }
                return None;
            },
        };
        if d >= 10 {
            proof {
                assert(t[(i - start) as int] == s@[i as int]);
                lemma_digits_none_at(t, (i - start) as int, 10);
            }
            return None;
        }
        proof {
            assert(s@.subrange(start as int, i as int + 1).drop_last() == s@.subrange(start as int, i as int));
            assert(s@.subrange(start as int, i as int + 1).last() == s@[i as int]);
        }
        v = v * 10 + (d as u64);
        if v >= 256 {
            proof {
                if digits_value(t, 10) is Some {
                    lemma_digits_prefix(t, (i + 1 - start) as int, 10);
                    assert(t.subrange(0, (i + 1 - start) as int) == s@.subrange(start as int, i as int + 1));
                }
            }
            return None;
        }
        i += 1;
    }
    proof {
        assert(s@.subrange(start as int, hi as int) == s@.subrange(start as int, i as int));
    }
    Some(v)
}

/// `16^n`, for at most sixteen digits.
#[verifier::spinoff_prover]
#[verifier::rlimit(30)]
fn hex_power(n: usize) -> (r: u128)
    requires
        n <= 16,
    ensures
        r as nat == pow_nat(16, n as nat),
        r >= 1,
        r as nat <= pow_nat(16, 16),
        pow_nat(16, 16) == 18446744073709551616,
{
    let mut p: u128 = 1;
    let mut i: usize = 0;
    proof {
        reveal_with_fuel(pow_nat, 17);
    }
    while i < n
        invariant
            i <= n <= 16,
            p as nat == pow_nat(16, i as nat),
            pow_nat(16, 16) == 18446744073709551616,
        decreases n - i,
    {
        proof {
            lemma_pow_monotone(16, i as nat + 1, 16);
        }
        p = p * 16;
        i += 1;
    }
    proof {
        lemma_pow_monotone(16, n as nat, 16);
        lemma_pow_monotone(16, 0, n as nat);
    }
    p
}

/// `v` of `max` scaled to 0..=255, rounding to nearest.
#[verifier::spinoff_prover]
#[verifier::rlimit(30)]
fn scale_channel(v: u64, max: u128) -> (r: u8)
    requires
        v as int <= max as int,
        max >= 1,
        max <= 18446744073709551615,
    ensures
        r as int == ((v as int) * 255 + (max as int) / 2) / (max as int),
{
    let q: u128 = ((v as u128) * 255 + max / 2) / max;
    proof {
        let vi = v as int;
        let mi = max as int;
        assert(((vi * 255 + mi / 2) / mi) <= 255) by (nonlinear_arith)
            requires
                vi <= mi,
                mi >= 1,
                vi >= 0,
        {
            assert(vi * 255 + mi / 2 < 256 * mi);
        }
    }
    q as u8
}

/// One color channel of `s[lo..hi]`.
#[verifier::spinoff_prover]
#[verifier::rlimit(30)]
fn component_exec(s: &[u8], lo: usize, hi: usize) -> (r: Option<u8>)
    requires
        lo <= hi <= s@.len(),
    ensures
        r == component_value(s@.subrange(lo as int, hi as int)),
{
    let (a, b) = trim_range(s, lo, hi);
    let n = b - a;
    if n == 0 || n > 16 {
        return None;
    }
    let ghost t = s@.subrange(a as int, b as int);
    let start = if s[a] == 43u8 {
        a + 1
    } else {
        a
    };
    proof {
        if s@[a as int] == 43u8 {
            assert(t.drop_first() == s@.subrange(a as int + 1, b as int));
        }
        assert(number_value(t, 16) == digits_value(s@.subrange(start as int, b as int), 16));
    }
    let v = match digits_exec(s, start, b, 16, 16) {
        Some(v) => v,
        None => {
            return None;
        },
    };
    let p = hex_power(n);
    proof {
        lemma_pow_monotone(16, (b - start) as nat, n as nat);
    }
    let max: u128 = p - 1;
    Some(scale_channel(v, max))
}

/// Whether `s[lo..hi]` is `rgb` or `rgba`.
#[verifier::spinoff_prover]
#[verifier::rlimit(30)]
fn is_rgb_model(s: &[u8], lo: usize, hi: usize) -> (r: bool)
    requires
        lo <= hi <= s@.len(),
    ensures
        r == (s@.subrange(lo as int, hi as int) == seq![114u8, 103u8, 98u8]
            || s@.subrange(lo as int, hi as int) == seq![114u8, 103u8, 98u8, 97u8]),
{
    let ghost t = s@.subrange(lo as int, hi as int);
    let ghost rgb = seq![114u8, 103u8, 98u8];
    let ghost rgba = seq![114u8, 103u8, 98u8, 97u8];
    proof {
        assert(rgb.len() == 3 && rgb[0] == 114u8 && rgb[1] == 103u8 && rgb[2] == 98u8);
        assert(rgba.len() == 4 && rgba[0] == 114u8 && rgba[1] == 103u8 && rgba[2] == 98u8 && rgba[3] == 97u8);
    }
    let n = hi - lo;
    if n != 3 && n != 4 {
        return false;
    }
    let ok = s[lo] == 114u8 && s[lo + 1] == 103u8 && s[lo + 2] == 98u8 && (n == 3 || s[lo + 3] == 97u8);
    proof {
        assert(t[0] == s@[lo as int] && t[1] == s@[lo + 1] && t[2] == s@[lo + 2]);
        if n == 4 {
            assert(t[3] == s@[lo + 3]);
        }
        if ok && n == 3 {
            assert(t =~= rgb);
        }
        if ok && n == 4 {
            assert(t =~= rgba);
        }
    }
    ok
}

/// The three channels of `s[lo..hi]`.
#[verifier::spinoff_prover]
#[verifier::rlimit(30)]
fn three_channels_exec(s: &[u8], lo: usize, hi: usize) -> (r: Option<Rgb>)
    requires
        lo <= hi <= s@.len(),
    ensures
        r == three_channels(s@.subrange(lo as int, hi as int)),
{
    let ghost values = s@.subrange(lo as int, hi as int);
    let a = match find_byte_exec(s, lo, hi, 47u8) {
        Some(a) => a,
        None => {
            return None;
        },
    };
    let ghost rest1 = values.subrange(a - lo + 1, values.len() as int);
    proof {
        lemma_sub(s@, lo as int, hi as int, 0, a - lo);
        lemma_sub(s@, lo as int, hi as int, a - lo + 1, hi - lo);
    }
    let b = match find_byte_exec(s, a + 1, hi, 47u8) {
        Some(b) => b,
        None => {
            return None;
        },
    };
    let ghost rest2 = rest1.subrange(b - a, rest1.len() as int);
    proof {
        lemma_sub(s@, a + 1, hi as int, 0, b - a - 1);
        lemma_sub(s@, a + 1, hi as int, b - a, hi - a - 1);
    }
    let c_end = match find_byte_exec(s, b + 1, hi, 47u8) {
        Some(c) => c,
        None => hi,
    };
    proof {
        lemma_sub(s@, b + 1, hi as int, 0, c_end - b - 1);
        assert(s@.subrange(b + 1, hi as int).subrange(0, hi - b - 1) == s@.subrange(b + 1, hi as int));
    }
    let red = component_exec(s, lo, a);
    let green = component_exec(s, a + 1, b);
    let blue = component_exec(s, b + 1, c_end);
    match (red, green, blue) {
        (Some(r), Some(g), Some(bl)) => Some((r, g, bl)),
        _ => None,
    }
}

/// The color of `s[lo..hi]` written as `rgb:R/G/B` or `rgba:R/G/B/A`.
#[verifier::spinoff_prover]
#[verifier::rlimit(30)]
fn rgb_exec(s: &[u8], lo: usize, hi: usize) -> (r: Option<Rgb>)
    requires
        lo <= hi <= s@.len(),
    ensures
        r == rgb_value(s@.subrange(lo as int, hi as int)),
{
    let k = match find_byte_exec(s, lo, hi, 58u8) {
        Some(k) => k,
        None => {
            return None;
        },
    };
    proof {
        lemma_sub(s@, lo as int, hi as int, 0, k - lo);
        lemma_sub(s@, lo as int, hi as int, k - lo + 1, hi - lo);
    }
    if !is_rgb_model(s, lo, k) {
        return None;
    }
    three_channels_exec(s, k + 1, hi)
}

/// A palette answer in `s[lo..hi]`: its slot and color.
#[verifier::spinoff_prover]
#[verifier::rlimit(30)]
fn palette_message_exec(s: &[u8], lo: usize, hi: usize) -> (r: Option<(u64, Rgb)>)
    requires
        lo <= hi <= s@.len(),
    ensures
        r is None <==> palette_message(s@.subrange(lo as int, hi as int)) is None,
        r is Some ==> r.unwrap().0 < 256 && (r.unwrap().0 as nat, r.unwrap().1) == palette_message(s@.subrange(lo as int, hi as int)).unwrap(),
{
    let ghost m = s@.subrange(lo as int, hi as int);
    let i = match find_byte_exec(s, lo, hi, 59u8) {
        Some(i) => i,
        None => {
            return None;
        },
    };
    let ghost rest = m.subrange(i - lo + 1, m.len() as int);
    proof {
        assert(rest == s@.subrange(i + 1, hi as int));
        assert(m.subrange(0, i - lo) == s@.subrange(lo as int, i as int));
    }
    if !(i == lo + 1 && s[lo] == 52u8) {
        proof {
            if m.subrange(0, i - lo) == seq![52u8] {
                assert(m.subrange(0, i - lo)[0] == 52u8);
            }
        }
        return None;
    }
    proof {
        assert(m.subrange(0, i - lo) =~= seq![52u8]);
    }
    let j = match find_byte_exec(s, i + 1, hi, 59u8) {
        Some(j) => j,
        None => {
            return None;
        },
    };
    proof {
        assert(rest.subrange(0, j - i - 1) == s@.subrange(i + 1, j as int));
        assert(rest.subrange(j - i, rest.len() as int) == s@.subrange(j + 1, hi as int));
    }
    let (ta, tb) = trim_range(s, i + 1, j);
    let index = match index_exec(s, ta, tb) {
        Some(x) => x,
        None => {
            return None;
        },
    };
    match rgb_exec(s, j + 1, hi) {
        Some(c) => Some((index, c)),
        None => None,
    }
}


// ---------------------------------------------------------------------------
// Operating System Command answers

/// Index of the first `ESC ]` at or after `i`.
pub open spec fn osc_start_from(b: Seq<u8>, i: int) -> Option<int>
    decreases b.len() - i,
{
    if i < 0 || i + 1 >= b.len() {
        None
    } else if b[i] == 27 && b[i + 1] == 93 {
        Some(i)
    } else {
        osc_start_from(b, i + 1)
    }
}

/// The first terminator at or after `i`: `BEL` (length 1) or `ESC \` (length 2).
pub open spec fn terminator_from(b: Seq<u8>, i: int) -> Option<(int, int)>
    decreases b.len() - i,
{
    if i < 0 || i >= b.len() {
        None
    } else if b[i] == 7 {
        Some((i, 1))
    } else if b[i] == 27 && i + 1 < b.len() && b[i + 1] == 92 {
        Some((i, 2))
    } else {
        terminator_from(b, i + 1)
    }
}

pub open spec fn parsed_message(m: Seq<u8>) -> Option<(nat, Rgb)> {
    if valid_utf8(m) {
        palette_message(m)
    } else {
        None
    }
}

/// Consumes the complete palette answers at the front of `buf`: bytes
/// before an `ESC ]` are dropped, each terminated answer is removed and, if
/// it names a slot not yet filled, fills it. Stops at an incomplete answer
/// or when no `ESC ]` is left. Yields the remaining bytes, the palette and
/// the number of slots filled.
pub open spec fn apply_responses(buf: Seq<u8>, pal: Seq<Option<Rgb>>, count: nat) -> (Seq<u8>, Seq<Option<Rgb>>, nat)
    decreases buf.len(),
{
    match osc_start_from(buf, 0) {
        None => (buf, pal, count),
        Some(i) => if i > 0 {
            if i < buf.len() {
                apply_responses(buf.subrange(i, buf.len() as int), pal, count)
            } else {
                (buf, pal, count)
            }
        } else {
            match terminator_from(buf, 2) {
                None => (buf, pal, count),
                Some((end, tl)) => if 2 <= end && end + tl <= buf.len() && tl >= 1 {
                    let rest = buf.subrange(end + tl, buf.len() as int);
                    match parsed_message(buf.subrange(2, end)) {
                        Some((slot, c)) => if slot < pal.len() && pal[slot as int] is None {
                            apply_responses(rest, pal.update(slot as int, Some(c)), count + 1)
                        } else {
                            apply_responses(rest, pal, count)
                        },
                        None => apply_responses(rest, pal, count),
                    }
                } else {
                    (buf, pal, count)
                },
            }
        },
    }
}

proof fn lemma_osc_start_range(b: Seq<u8>, i: int)
    requires
        0 <= i,
    ensures
        osc_start_from(b, i) is Some ==> i <= osc_start_from(b, i).unwrap() && osc_start_from(b, i).unwrap() + 1 < b.len(),
    decreases b.len() - i,
{
    if i + 1 < b.len() && !(b[i] == 27 && b[i + 1] == 93) {
        lemma_osc_start_range(b, i + 1);
    }
}

proof fn lemma_terminator_range(b: Seq<u8>, i: int)
    requires
        0 <= i,
    ensures
        terminator_from(b, i) is Some ==> i <= terminator_from(b, i).unwrap().0 && terminator_from(b, i).unwrap().1 >= 1
            && terminator_from(b, i).unwrap().0 + terminator_from(b, i).unwrap().1 <= b.len(),
    decreases b.len() - i,
{
    if i < b.len() && b[i] != 7 && !(b[i] == 27 && i + 1 < b.len() && b[i + 1] == 92) {
        lemma_terminator_range(b, i + 1);
    }
}

/// Whether `b[lo..hi]` is valid UTF-8.
fn utf8_ok(b: &[u8], lo: usize, hi: usize) -> (r: bool)
    requires
        lo <= hi <= b@.len(),
    ensures
        r == valid_utf8(b@.subrange(lo as int, hi as int)),
{
    utf8_slice(b, lo, hi).is_some()
}

fn osc_start_exec(b: &[u8]) -> (r: Option<usize>)
    ensures
        r is None <==> osc_start_from(b@, 0) is None,
        r is Some ==> osc_start_from(b@, 0) == Some(r.unwrap() as int),
{
    let mut i: usize = 0;
    let n = b.len();
    while i < n && i + 1 < n
        invariant
            n == b@.len(),
            i <= b@.len(),
            osc_start_from(b@, 0) == osc_start_from(b@, i as int),
        decreases b@.len() - i,
    {
        if b[i] == 27u8 && b[i + 1] == 93u8 {
            return Some(i);
        }
        i += 1;
    }
    None
}

fn terminator_exec(b: &[u8], from: usize) -> (r: Option<(usize, usize)>)
    requires
        from <= b@.len(),
    ensures
        r is None <==> terminator_from(b@, from as int) is None,
        r is Some ==> terminator_from(b@, from as int) == Some((r.unwrap().0 as int, r.unwrap().1 as int)),
{
    let mut i: usize = from;
    while i < b.len()
        invariant
            from <= i <= b@.len(),
            terminator_from(b@, from as int) == terminator_from(b@, i as int),
        decreases b@.len() - i,
    {
        if b[i] == 7u8 {
            return Some((i, 1));
        }
        if b[i] == 27u8 && i + 1 < b.len() && b[i + 1] == 92u8 {
            return Some((i, 2));
        }
        i += 1;
    }
    None
}

fn drop_front(v: &mut Vec<u8>, k: usize)
    requires
        k <= old(v)@.len(),
    ensures
        final(v)@ == old(v)@.subrange(k as int, old(v)@.len() as int),
{
    let mut out: Vec<u8> = Vec::new();
    let mut i = k;
    while i < v.len()
        invariant
            k <= i <= v@.len(),
            v@ == old(v)@,
            out@ == v@.subrange(k as int, i as int),
        decreases v@.len() - i,
    {
        out.push(v[i]);
        proof {
            assert(out@ =~= v@.subrange(k as int, i as int + 1));
        }
        i += 1;
    }
    *v = out;
}

#[verifier::spinoff_prover]
#[verifier::rlimit(30)]
pub fn apply_palette_responses(buffer: &mut Vec<u8>, palette: &mut [Option<Rgb>; 256]) -> (r: usize)
    ensures
        (final(buffer)@, final(palette)@, r as nat) == apply_responses(old(buffer)@, old(palette)@, 0),
{
    let ghost target = apply_responses(buffer@, palette@, 0);
    let init_len = buffer.len();
    let mut newly: usize = 0;
    loop
        invariant
            apply_responses(buffer@, palette@, newly as nat) == target,
            palette@.len() == 256,
            newly + buffer@.len() <= init_len as nat,
            init_len == old(buffer)@.len(),
        ensures
            apply_responses(buffer@, palette@, newly as nat) == (buffer@, palette@, newly as nat),
            apply_responses(buffer@, palette@, newly as nat) == target,
        decreases buffer@.len(),
    {
        let start = match osc_start_exec(buffer.as_slice()) {
            Some(st) => st,
            None => {
                break;
            },
        };
        proof {
            lemma_osc_start_range(buffer@, 0);
        }
        if start > 0 {
            drop_front(buffer, start);
            continue;
        }
        let (end, tl) = match terminator_exec(buffer.as_slice(), 2) {
            Some(t) => t,
            None => {
                break;
            },
        };
        let blen = buffer.len();
        proof {
            lemma_terminator_range(buffer@, 2);
            assert(2 <= end && end + tl <= blen && tl >= 1);
        }
        let parsed = if utf8_ok(buffer.as_slice(), 2, end) {
            palette_message_exec(buffer.as_slice(), 2, end)
        } else {
            None
        };
        let ghost before = buffer@;
        drop_front(buffer, end + tl);
        proof {
            assert(newly + buffer@.len() + 3 <= init_len);
        }
        match parsed {
            Some((slot, c)) => {
                let i = slot as usize;
                if palette[i].is_none() {
                    palette[i] = Some(c);
                    newly += 1;
                }
            },
            None => {},
        }
    }
    newly
}

/// The palette once every slot is known.
pub fn terminal_palette(palette: &[Option<Rgb>; 256]) -> (r: Option<[Rgb; 256]>)
    ensures
        r is Some <==> forall|i: int| 0 <= i < 256 ==> (#[trigger] palette@[i]) is Some,
        r is Some ==> forall|i: int| 0 <= i < 256 ==> (#[trigger] r.unwrap()@[i]) == palette@[i].unwrap(),
{
    let mut colors: [Rgb; 256] = [(0u8, 0u8, 0u8); 256];
    let mut i: usize = 0;
    while i < 256
        invariant
            i <= 256,
            colors@.len() == 256,
            forall|j: int| 0 <= j < i ==> (#[trigger] palette@[j]) is Some && colors@[j] == palette@[j].unwrap(),
        decreases 256 - i,
    {
        match palette[i] {
            Some(c) => {
                colors[i] = c;
            },
            None => {
                return None;
            },
        }
        i += 1;
    }
    Some(colors)
}

/// The prefix of the answer to query `code` (10: foreground, 11: background).
pub open spec fn osc_color_prefix(code: u8) -> Option<Seq<u8>> {
    if code == 10 {
        Some(seq![27u8, 93u8, 49u8, 48u8, 59u8])
    } else if code == 11 {
        Some(seq![27u8, 93u8, 49u8, 49u8, 59u8])
    } else {
        None
    }
}

/// Index of the last occurrence of `pat` that starts at or before `i`.
pub open spec fn rfind_from(b: Seq<u8>, pat: Seq<u8>, i: int) -> Option<int>
    decreases i + 1,
{
    if i < 0 {
        None
    } else if i + pat.len() <= b.len() && b.subrange(i, i + pat.len()) == pat {
        Some(i)
    } else {
        rfind_from(b, pat, i - 1)
    }
}

/// A color answer's payload; `?` (a query echoed back) has no color.
pub open spec fn color_payload(p: Seq<u8>) -> Option<Rgb> {
    if p.len() == 0 || p == seq![63u8] {
        None
    } else {
        rgb_value(p)
    }
}

/// The color in the last answer to query `code` held by `b`.
pub open spec fn osc_color(b: Seq<u8>, code: u8) -> Option<Rgb> {
    if !valid_utf8(b) {
        None
    } else {
        match osc_color_prefix(code) {
            None => None,
            Some(pat) => match rfind_from(b, pat, b.len() - pat.len()) {
                None => None,
                Some(start) => match terminator_from(b, start + pat.len()) {
                    None => None,
                    Some((end, _)) => if start + pat.len() <= end {
                        color_payload(trim(b.subrange(start + pat.len(), end)))
                    } else {
                        None
                    },
                },
            },
        }
    }
}

proof fn lemma_terminator_from_at_least(b: Seq<u8>, i: int)
    requires
        0 <= i,
    ensures
        terminator_from(b, i) is Some ==> i <= terminator_from(b, i).unwrap().0 < b.len(),
    decreases b.len() - i,
{
    if i < b.len() && b[i] != 7 && !(b[i] == 27 && i + 1 < b.len() && b[i + 1] == 92) {
        lemma_terminator_from_at_least(b, i + 1);
    }
}

/// Index of the last `ESC ] 1 d ;` in `b`.
#[verifier::spinoff_prover]
#[verifier::rlimit(30)]
fn rfind_prefix(b: &[u8], d: u8) -> (r: Option<usize>)
    ensures
        r is None ==> rfind_from(b@, seq![27u8, 93u8, 49u8, d, 59u8], b@.len() - 5) is None,
        r is Some ==> r.unwrap() + 5 <= b@.len()
            && rfind_from(b@, seq![27u8, 93u8, 49u8, d, 59u8], b@.len() - 5) == Some(r.unwrap() as int),
{
    let ghost pat = seq![27u8, 93u8, 49u8, d, 59u8];
    let n = b.len();
    if n < 5 {
        return None;
    }
    let mut i: usize = n - 5;
    loop
        invariant
            n == b@.len(),
            n >= 5,
            i + 5 <= n,
            pat == seq![27u8, 93u8, 49u8, d, 59u8],
            rfind_from(b@, pat, n - 5) == rfind_from(b@, pat, i as int),
        decreases i,
    {
        let ghost t = b@.subrange(i as int, i + 5);
        if b[i] == 27u8 && b[i + 1] == 93u8 && b[i + 2] == 49u8 && b[i + 3] == d && b[i + 4] == 59u8 {
            proof {
                assert(t =~= pat);
            }
            return Some(i);
        }
        proof {
            if t == pat {
                assert(t[0] == b@[i as int] && t[1] == b@[i + 1] && t[2] == b@[i + 2] && t[3] == b@[i + 3] && t[4] == b@[i + 4]);
            }
        }
        if i == 0 {
            proof {
                assert(rfind_from(b@, pat, -1) is None);
            }
            return None;
        }
        i -= 1;
    }
}

/// The color in the last answer to query `code` (10 or 11) in `buffer`.
#[verifier::spinoff_prover]
#[verifier::rlimit(30)]
pub fn parse_osc_color(buffer: &[u8], code: u8) -> (r: Option<Rgb>)
    ensures
        r == osc_color(buffer@, code),
{
    if !utf8_ok(buffer, 0, buffer.len()) {
        proof {
            assert(buffer@.subrange(0, buffer@.len() as int) == buffer@);
        }
        return None;
    }
    proof {
        assert(buffer@.subrange(0, buffer@.len() as int) == buffer@);
    }
    if code != 10 && code != 11 {
        return None;
    }
    let ghost pat = osc_color_prefix(code).unwrap();
    let d: u8 = if code == 10 {
        48u8
    } else {
        49u8
    };
    proof {
        assert(pat =~= seq![27u8, 93u8, 49u8, d, 59u8]);
    }
    let start = match rfind_prefix(buffer, d) {
        Some(st) => st,
        None => {
            return None;
        },
    };
    let after = start + 5;
    let (end, _) = match terminator_exec(buffer, after) {
        Some(t) => t,
        None => {
            return None;
        },
    };
    proof {
        lemma_terminator_from_at_least(buffer@, after as int);
    }
    let (a, b) = trim_range(buffer, after, end);
    if a == b || (b == a + 1 && buffer[a] == 63u8) {
        proof {
            if b == a + 1 {
                assert(buffer@.subrange(a as int, b as int) =~= seq![63u8]);
            }
        }
        return None;
    }
    proof {
        let t = buffer@.subrange(a as int, b as int);
        if t == seq![63u8] {
            assert(t[0] == buffer@[a as int]);
        }
    }
    rgb_exec(buffer, a, b)
}

/// The default colors from the answers to both queries held by `buffer`.
pub fn default_colors(buffer: &[u8]) -> (r: Option<DefaultColors>)
    ensures
        r is Some <==> osc_color(buffer@, 10) is Some && osc_color(buffer@, 11) is Some,
        r is Some ==> r.unwrap().fg == osc_color(buffer@, 10).unwrap() && r.unwrap().bg == osc_color(buffer@, 11).unwrap(),
{
    match (parse_osc_color(buffer, 10), parse_osc_color(buffer, 11)) {
        (Some(fg), Some(bg)) => Some(DefaultColors { fg, bg }),
        _ => None,
    }
}

pub fn default_fg(colors: Option<DefaultColors>) -> (r: Option<Rgb>)
    ensures
        r == (match colors { Some(c) => Some(c.fg), None => None }),
{
    match colors {
        Some(c) => Some(c.fg),
        None => None,
    }
}

pub fn default_bg(colors: Option<DefaultColors>) -> (r: Option<Rgb>)
    ensures
        r == (match colors { Some(c) => Some(c.bg), None => None }),
{
    match colors {
        Some(c) => Some(c.bg),
        None => None,
    }
}

} // verus!
