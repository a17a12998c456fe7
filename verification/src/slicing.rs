//! Cutting and joining byte strings: the piece after a separator, a text
//! without the occurrences of a pattern, a text without a byte at its
//! ends, a text shortened for display, and texts joined by a separator.

use crate::text::{copy_range, find, find_from, lemma_find_bounds, matches_at, occurs_at};
use crate::text::views;
use vstd::prelude::*;

verus! {

/// The second of the pieces into which the occurrences of `pat` cut `s`:
/// what stands between the first occurrence and the next one, or the end.
/// `None` where `pat` does not occur.
pub open spec fn second_piece(s: Seq<u8>, pat: Seq<u8>) -> Option<Seq<u8>> {
    match find_from(s, pat, 0) {
        Some(first) => {
            let start = first + pat.len();
            let end = match find_from(s, pat, start) {
                Some(next) => next,
                None => s.len() as int,
            };
            Some(s.subrange(start, end))
        },
        None => None,
    }
}

/// `s` from `i` on without the occurrences of `pat`, which are taken out
/// from left to right.
pub open spec fn without_from(s: Seq<u8>, pat: Seq<u8>, i: int) -> Seq<u8>
    decreases s.len() - i,
{
    if i < 0 || i >= s.len() {
        Seq::empty()
    } else if pat.len() > 0 && occurs_at(s, pat, i) {
        without_from(s, pat, i + pat.len())
    } else {
        seq![s[i]] + without_from(s, pat, i + 1)
    }
}

/// `s` without the occurrences of `pat`.
pub open spec fn without(s: Seq<u8>, pat: Seq<u8>) -> Seq<u8> {
    without_from(s, pat, 0)
}

/// `s` without the bytes `b` at its start.
pub open spec fn strip_start(s: Seq<u8>, b: u8) -> Seq<u8>
    decreases s.len(),
{
    if s.len() > 0 && s[0] == b {
        strip_start(s.drop_first(), b)
    } else {
        s
    }
}

/// `s` without the bytes `b` at its end.
pub open spec fn strip_end(s: Seq<u8>, b: u8) -> Seq<u8>
    decreases s.len(),
{
    if s.len() > 0 && s.last() == b {
        strip_end(s.drop_last(), b)
    } else {
        s
    }
}

/// `s` without the bytes `b` at its start and at its end.
pub open spec fn strip(s: Seq<u8>, b: u8) -> Seq<u8> {
    strip_end(strip_start(s, b), b)
}

/// A byte that continues a character of several bytes.
pub open spec fn is_continuation(b: u8) -> bool {
    0x80 <= b && b <= 0xbf
}

/// The largest index up to `n` at which `s` can be cut without parting a
/// character of several bytes.
pub open spec fn cut_point(s: Seq<u8>, n: int) -> int
    decreases n,
{
    if 0 < n < s.len() && is_continuation(s[n]) {
        cut_point(s, n - 1)
    } else {
        n
    }
}

/// `s` for display in at most `limit` bytes: `s` itself where it is no
/// longer than that, else its first `limit - 3` bytes, cut back to the
/// start of a character, and three dots.  With a limit below 3 only the
/// dots are left of a text that is too long.
pub open spec fn shortened(s: Seq<u8>, limit: int) -> Seq<u8> {
    if s.len() > limit {
        let keep = if limit >= 3 {
            limit - 3
        } else {
            0
        };
        s.subrange(0, cut_point(s, keep)) + seq![0x2eu8, 0x2eu8, 0x2eu8]
    } else {
        s
    }
}

/// The texts `parts` in a row, with `sep` between each two.
pub open spec fn joined(parts: Seq<Seq<u8>>, sep: Seq<u8>) -> Seq<u8>
    decreases parts.len(),
{
    if parts.len() == 0 {
        Seq::empty()
    } else if parts.len() == 1 {
        parts[0]
    } else {
        joined(parts.drop_last(), sep) + sep + parts.last()
    }
}

/// The second of the pieces into which the occurrences of `pat` cut `s`.
pub fn piece_after(s: &[u8], pat: &[u8]) -> (r: Option<Vec<u8>>)
    ensures
        match r {
            Some(piece) => second_piece(s@, pat@) == Some(piece@),
            None => second_piece(s@, pat@) is None,
        },
{
    match find(s, pat, 0) {
        None => None,
        Some(first) => {
            proof {
                lemma_find_bounds(s@, pat@, 0);
            }
            let len = s.len();
            let start = first + pat.len();
            let end = match find(s, pat, start) {
                Some(next) => next,
                None => len,
            };
            proof {
                lemma_find_bounds(s@, pat@, start as int);
            }
            Some(copy_range(s, start, end))
        },
    }
}

/// `s` without the occurrences of `pat`.
pub fn remove_all(s: &[u8], pat: &[u8]) -> (r: Vec<u8>)
    ensures
        r@ == without(s@, pat@),
{
    let mut out: Vec<u8> = Vec::new();
    let mut i: usize = 0;
    while i < s.len()
        invariant
            i <= s.len(),
            without(s@, pat@) == out@ + without_from(s@, pat@, i as int),
        decreases s.len() - i,
    {
        if pat.len() > 0 && matches_at(s, pat, i) {
            i += pat.len();
        } else {
            let ghost before = out@;
            out.push(s[i]);
            assert(before + (seq![s@[i as int]] + without_from(s@, pat@, i + 1)) =~= out@
                + without_from(s@, pat@, i + 1));
            i += 1;
        }
    }
    assert(out@ + Seq::<u8>::empty() =~= out@);
    out
}

/// `s` without the bytes `b` at its start and at its end.
pub fn strip_byte(s: &[u8], b: u8) -> (r: &[u8])
    ensures
        r@ == strip(s@, b),
{
    let mut lo: usize = 0;
    assert(s@.subrange(0, s@.len() as int) =~= s@);
    while lo < s.len() && s[lo] == b
        invariant
            lo <= s.len(),
            strip_start(s@, b) == strip_start(s@.subrange(lo as int, s@.len() as int), b),
        decreases s.len() - lo,
    {
        assert(s@.subrange(lo as int, s@.len() as int).drop_first() =~= s@.subrange(
            lo + 1,
            s@.len() as int,
        ));
        lo += 1;
    }
    let mut hi: usize = s.len();
    while hi > lo && s[hi - 1] == b
        invariant
            lo <= hi <= s.len(),
            strip_start(s@, b) == s@.subrange(lo as int, s@.len() as int),
            strip(s@, b) == strip_end(s@.subrange(lo as int, hi as int), b),
        decreases hi - lo,
    {
        assert(s@.subrange(lo as int, hi as int).drop_last() =~= s@.subrange(lo as int, hi - 1));
        hi -= 1;
    }
    vstd::slice::slice_subrange(s, lo, hi)
}

/// `s` for display in at most `limit` bytes.
pub fn shorten(s: &[u8], limit: usize) -> (r: Vec<u8>)
    ensures
        r@ == shortened(s@, limit as int),
        limit >= 3 ==> r@.len() <= limit || r@.len() == s@.len(),
{
    if s.len() > limit {
        let keep: usize = if limit >= 3 {
            limit - 3
        } else {
            0
        };
        let mut cut: usize = keep;
        while cut > 0 && cut < s.len() && 0x80 <= s[cut] && s[cut] <= 0xbf
            invariant
                cut <= keep,
                keep <= s.len(),
                cut_point(s@, keep as int) == cut_point(s@, cut as int),
            decreases cut,
        {
            cut -= 1;
        }
        let mut out = copy_range(s, 0, cut);
        out.push(0x2e);
        out.push(0x2e);
        out.push(0x2e);
        assert(out@ =~= s@.subrange(0, cut as int) + seq![0x2eu8, 0x2eu8, 0x2eu8]);
        out
    } else {
        copy_range(s, 0, s.len())
    }
}

/// The bytes of `s`, copied.
pub fn owned(s: &[u8]) -> (r: Vec<u8>)
    ensures
        r@ == s@,
{
    let r = copy_range(s, 0, s.len());
    assert(s@.subrange(0, s@.len() as int) =~= s@);
    r
}

/// Appends the bytes of `s` to `out`.
pub fn append(out: &mut Vec<u8>, s: &[u8])
    ensures
        final(out)@ == old(out)@ + s@,
{
    let mut i: usize = 0;
    assert(out@ =~= old(out)@ + s@.subrange(0, 0));
    while i < s.len()
        invariant
            i <= s.len(),
            out@ == old(out)@ + s@.subrange(0, i as int),
        decreases s.len() - i,
    {
        out.push(s[i]);
        i += 1;
        assert(out@ =~= old(out)@ + s@.subrange(0, i as int));
    }
    assert(s@.subrange(0, s@.len() as int) =~= s@);
}

/// The texts `parts` in a row, with `sep` between each two.
pub fn join(parts: &Vec<Vec<u8>>, sep: &[u8]) -> (r: Vec<u8>)
    ensures
        r@ == joined(views(parts@), sep@),
{
    let mut out: Vec<u8> = Vec::new();
    let mut i: usize = 0;
    let ghost all = views(parts@);
    assert(all.subrange(0, 0) =~= Seq::<Seq<u8>>::empty());
    while i < parts.len()
        invariant
            i <= parts.len(),
            all == views(parts@),
            out@ == joined(all.subrange(0, i as int), sep@),
        decreases parts.len() - i,
    {
        let ghost done = all.subrange(0, i as int);
        let ghost next = all.subrange(0, i + 1);
        assert(next.drop_last() =~= done);
        assert(next.last() == parts@[i as int]@);
        if i > 0 {
            append(&mut out, sep);
        } else {
            assert(out@ =~= Seq::<u8>::empty());
            assert(out@ + parts@[i as int]@ =~= parts@[i as int]@);
        }
        append(&mut out, parts[i].as_slice());
        i += 1;
    }
    assert(all.subrange(0, all.len() as int) =~= all);
    out
}

} // verus!
