//! Decimal numbers in probe text.

use crate::text::{all_digits, byte_is_digit, digits_value, is_digit, lemma_digits_prefix};
use crate::text::{parse_i32, parse_u64, seek, seek_byte};
use vstd::prelude::*;

verus! {

/// What a run of bytes holds when it is read as decimal digits.
pub enum Digits {
    /// Some byte is not a digit.
    Invalid,
    /// All bytes are digits, and their value is above the limit.
    TooLarge,
    /// All bytes are digits, with this value.
    Value(u64),
}

/// The thousandths that the first three digits of a fraction denote.
pub open spec fn frac_milli(f: Seq<u8>) -> nat {
    digits_value((f + seq![0x30u8, 0x30u8, 0x30u8]).subrange(0, 3))
}

/// A non-negative decimal number, `digits [ . digits ]` with an optional
/// leading `+` and at least one digit, in thousandths, rounded down.
pub open spec fn parse_milli(s: Seq<u8>) -> Option<nat> {
    let d = if s.len() > 0 && s[0] == 0x2b {
        s.drop_first()
    } else {
        s
    };
    let dot = seek(d, 0x2e, 0);
    let whole = d.subrange(0, dot);
    let frac = if dot < d.len() {
        d.subrange(dot + 1, d.len() as int)
    } else {
        Seq::empty()
    };
    if whole.len() + frac.len() > 0 && all_digits(whole) && all_digits(frac) {
        Some(digits_value(whole) * 1000 + frac_milli(frac))
    } else {
        None
    }
}

/// `v`, or the largest `u32` where `v` is above it.
pub open spec fn clamp_u32(v: nat) -> u32 {
    if v <= u32::MAX {
        v as u32
    } else {
        u32::MAX
    }
}

/// Reads `s[lo..hi]` as decimal digits with a value of at most `max`.
pub fn scan_digits(s: &[u8], lo: usize, hi: usize, max: u64) -> (r: Digits)
    requires
        lo <= hi <= s.len(),
    ensures
        match r {
            Digits::Invalid => !all_digits(s@.subrange(lo as int, hi as int)),
            Digits::TooLarge => all_digits(s@.subrange(lo as int, hi as int)) && digits_value(
                s@.subrange(lo as int, hi as int),
            ) > max,
            Digits::Value(v) => all_digits(s@.subrange(lo as int, hi as int)) && digits_value(
                s@.subrange(lo as int, hi as int),
            ) == v && v <= max,
        },
{
    let ghost run = s@.subrange(lo as int, hi as int);
    let mut i: usize = lo;
    while i < hi
        invariant
            lo <= i <= hi <= s.len(),
            run == s@.subrange(lo as int, hi as int),
            forall|k: int| lo <= k < i ==> is_digit(s@[k]),
        decreases hi - i,
    {
        if !byte_is_digit(s[i]) {
            assert(!is_digit(run[i - lo]));
            return Digits::Invalid;
        }
        i += 1;
    }
    assert(all_digits(run));
    let mut acc: u64 = 0;
    i = lo;
    assert(s@.subrange(lo as int, lo as int) =~= Seq::<u8>::empty());
    while i < hi
        invariant
            lo <= i <= hi <= s.len(),
            run == s@.subrange(lo as int, hi as int),
            all_digits(run),
            acc == digits_value(s@.subrange(lo as int, i as int)),
            acc <= max,
        decreases hi - i,
    {
        assert(is_digit(run[i - lo]));
        let d: u64 = (s[i] - 0x30) as u64;
        proof {
            let next = s@.subrange(lo as int, i + 1);
            assert(next.drop_last() =~= s@.subrange(lo as int, i as int));
            assert(digits_value(next) == acc * 10 + d);
            assert(run.subrange(0, i + 1 - lo) =~= next);
            lemma_digits_prefix(run, i + 1 - lo);
        }
        if d > max || acc > (max - d) / 10 {
            return Digits::TooLarge;
        }
        acc = acc * 10 + d;
        i += 1;
    }
    Digits::Value(acc)
}

/// The `u64` that `s` denotes: an optional `+`, then digits.
pub fn read_u64(s: &[u8]) -> (r: Option<u64>)
    ensures
        r == parse_u64(s@),
{
    let lo: usize = if s.len() > 0 && s[0] == 0x2b {
        1
    } else {
        0
    };
    if lo == s.len() {
        return None;
    }
    proof {
        if lo == 1 {
            assert(s@.subrange(1, s@.len() as int) =~= s@.drop_first());
        } else {
            assert(s@.subrange(0, s@.len() as int) =~= s@);
        }
    }
    match scan_digits(s, lo, s.len(), u64::MAX) {
        Digits::Value(v) => Some(v),
        _ => None,
    }
}

/// The `i32` that `s` denotes: an optional sign, then digits.
pub fn read_i32(s: &[u8]) -> (r: Option<i32>)
    ensures
        r == parse_i32(s@),
{
    if s.len() > 0 && s[0] == 0x2d {
        if s.len() == 1 {
            return None;
        }
        assert(s@.subrange(1, s@.len() as int) =~= s@.drop_first());
        match scan_digits(s, 1, s.len(), 2147483648) {
            Digits::Value(v) => {
                let m: i64 = v as i64;
                Some((0 - m) as i32)
            },
            _ => None,
        }
    } else {
        let lo: usize = if s.len() > 0 && s[0] == 0x2b {
            1
        } else {
            0
        };
        if lo == s.len() {
            return None;
        }
        proof {
            if lo == 1 {
                assert(s@.subrange(1, s@.len() as int) =~= s@.drop_first());
            } else {
                assert(s@.subrange(0, s@.len() as int) =~= s@);
            }
        }
        match scan_digits(s, lo, s.len(), 2147483647) {
            Digits::Value(v) => Some(v as i32),
            _ => None,
        }
    }
}

/// The thousandths that the first three digits of `s[lo..hi]` denote.
fn read_frac_milli(s: &[u8], lo: usize, hi: usize) -> (r: u64)
    requires
        lo <= hi <= s.len(),
        all_digits(s@.subrange(lo as int, hi as int)),
    ensures
        r == frac_milli(s@.subrange(lo as int, hi as int)),
        r <= 999,
{
    let ghost frac = s@.subrange(lo as int, hi as int);
    let n: usize = hi - lo;
    let mut d0: u64 = 0;
    let mut d1: u64 = 0;
    let mut d2: u64 = 0;
    if n > 0 {
        assert(is_digit(frac[0]));
        d0 = (s[lo] - 0x30) as u64;
    }
    if n > 1 {
        assert(is_digit(frac[1]));
        d1 = (s[lo + 1] - 0x30) as u64;
    }
    if n > 2 {
        assert(is_digit(frac[2]));
        d2 = (s[lo + 2] - 0x30) as u64;
    }
    proof {
        let three = (frac + seq![0x30u8, 0x30u8, 0x30u8]).subrange(0, 3);
        let two = three.drop_last();
        let one = two.drop_last();
        assert(one.drop_last() =~= Seq::<u8>::empty());
        assert(digits_value(one.drop_last()) == 0);
        assert(digits_value(one) == d0);
        assert(digits_value(two) == d0 * 10 + d1);
        assert(digits_value(three) == d0 * 100 + d1 * 10 + d2);
    }
    d0 * 100 + d1 * 10 + d2
}

/// The non-negative decimal number that `s` denotes, in thousandths,
/// rounded down and held to the range of `u32`.
pub fn read_milli(s: &[u8]) -> (r: Option<u32>)
    ensures
        r == match parse_milli(s@) {
            Some(v) => Some(clamp_u32(v)),
            None => None,
        },
{
    let lo: usize = if s.len() > 0 && s[0] == 0x2b {
        1
    } else {
        0
    };
    let ghost d = s@.subrange(lo as int, s@.len() as int);
    let dot = seek_byte(s, 0x2e, lo);
    let frac_lo: usize = if dot < s.len() {
        dot + 1
    } else {
        dot
    };
    proof {
        if lo == 1 {
            assert(d =~= s@.drop_first());
        } else {
            assert(d =~= s@);
        }
        lemma_seek_shift(s@, 0x2e, lo as int, lo as int);
        assert(d.subrange(0, dot - lo) =~= s@.subrange(lo as int, dot as int));
        if dot < s.len() {
            assert(s@.subrange(frac_lo as int, s@.len() as int) =~= d.subrange(
                dot - lo + 1,
                d.len() as int,
            ));
        } else {
            assert(s@.subrange(frac_lo as int, s@.len() as int) =~= Seq::<u8>::empty());
        }
    }
    if (dot - lo) + (s.len() - frac_lo) == 0 {
        return None;
    }
    let frac_ok = match scan_digits(s, frac_lo, s.len(), u64::MAX) {
        Digits::Invalid => false,
        _ => true,
    };
    if !frac_ok {
        return None;
    }
    match scan_digits(s, lo, dot, 4294967) {
        Digits::Invalid => None,
        Digits::TooLarge => Some(u32::MAX),
        Digits::Value(w) => {
            let f = read_frac_milli(s, frac_lo, s.len());
            let v: u64 = w * 1000 + f;
            if v > 4294967295 {
                Some(u32::MAX)
            } else {
                Some(v as u32)
            }
        },
    }
}

/// `seek` on a suffix of the text finds the same byte as `seek` on the
/// whole, counted from the start of the suffix.
pub proof fn lemma_seek_shift(s: Seq<u8>, b: u8, lo: int, i: int)
    requires
        0 <= lo <= i <= s.len(),
    ensures
        seek(s, b, i) - lo == seek(s.subrange(lo, s.len() as int), b, i - lo),
    decreases s.len() - i,
{
    let t = s.subrange(lo, s.len() as int);
    if i < s.len() {
        assert(t[i - lo] == s[i]);
        if s[i] != b {
            lemma_seek_shift(s, b, lo, i + 1);
        }
    }
}

} // verus!
