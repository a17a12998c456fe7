//! Framing of a byte stream into lines.  The stream arrives in chunks of
//! any size; a line is handed out as soon as its line feed has arrived,
//! and what follows the last line feed waits for the next chunk.

use crate::number::lemma_seek_shift;
use crate::slicing::append;
use crate::text::{copy_range, lemma_seek, line_end, lines, lines_from, seek, split_lines};
use crate::text::views;
use vstd::prelude::*;

verus! {

/// Length of the part of `s` that ends with its last line feed; 0 where
/// `s` holds none.
pub open spec fn framed_len(s: Seq<u8>) -> int
    decreases s.len(),
{
    if s.len() == 0 {
        0
    } else if s.last() == 0x0a {
        s.len() as int
    } else {
        framed_len(s.drop_last())
    }
}

/// The lines of `s` whose line feed is there.
pub open spec fn complete_lines(s: Seq<u8>) -> Seq<Seq<u8>> {
    lines(s.subrange(0, framed_len(s)))
}

/// What follows the last line feed of `s`.
pub open spec fn unfinished(s: Seq<u8>) -> Seq<u8> {
    s.subrange(framed_len(s), s.len() as int)
}

/// The lines that a stream gives when it ends after `s`: the complete
/// ones, and what follows the last line feed where that is not empty.
pub open spec fn lines_at_end(s: Seq<u8>) -> Seq<Seq<u8>> {
    if unfinished(s).len() > 0 {
        complete_lines(s).push(unfinished(s))
    } else {
        complete_lines(s)
    }
}

/// `framed_len` lies within the text, stands behind a line feed unless it
/// is 0, and no line feed follows it.
pub proof fn lemma_framed_len(s: Seq<u8>)
    ensures
        0 <= framed_len(s) <= s.len(),
        framed_len(s) > 0 ==> s[framed_len(s) - 1] == 0x0a,
        forall|k: int| framed_len(s) <= k < s.len() ==> #[trigger] s[k] != 0x0a,
    decreases s.len(),
{
    if s.len() > 0 && s.last() != 0x0a {
        let front = s.drop_last();
        lemma_framed_len(front);
        assert forall|k: int| framed_len(s) <= k < s.len() implies #[trigger] s[k] != 0x0a by {
            if k < front.len() {
                assert(front[k] == s[k]);
            }
        }
    }
}

/// Behind a text that is empty or ends with a line feed, the framed
/// length of what follows counts from the end of that text.
pub proof fn lemma_framed_concat(x: Seq<u8>, y: Seq<u8>)
    requires
        x.len() == 0 || x.last() == 0x0a,
    ensures
        framed_len(x + y) == x.len() + framed_len(y),
    decreases y.len(),
{
    if y.len() == 0 {
        assert(x + y =~= x);
    } else if y.last() != 0x0a {
        assert((x + y).drop_last() =~= x + y.drop_last());
        lemma_framed_concat(x, y.drop_last());
    }
}

/// A byte that is found within a text is found at the same place when
/// more text follows.
pub proof fn lemma_seek_prefix(x: Seq<u8>, y: Seq<u8>, b: u8, i: int)
    requires
        0 <= i <= x.len(),
        seek(x, b, i) < x.len(),
    ensures
        seek(x + y, b, i) == seek(x, b, i),
    decreases x.len() - i,
{
    if i < x.len() {
        assert((x + y)[i] == x[i]);
        if x[i] != b {
            lemma_seek_prefix(x, y, b, i + 1);
        }
    }
}

/// The lines of a text from an index on are the lines of the rest of the
/// text from there.
pub proof fn lemma_lines_shift(s: Seq<u8>, lo: int, j: int)
    requires
        0 <= lo <= s.len(),
        0 <= j,
    ensures
        lines_from(s, lo + j) == lines_from(s.subrange(lo, s.len() as int), j),
    decreases s.len() + 1 - lo - j,
{
    let t = s.subrange(lo, s.len() as int);
    if lo + j < s.len() {
        lemma_seek(s, 0x0a, lo + j);
        lemma_seek(t, 0x0a, j);
        lemma_seek_shift(s, 0x0a, lo, lo + j);
        let e = line_end(s, lo + j);
        let f = line_end(t, j);
        assert(e - lo == f);
        assert(s.subrange(lo + j, e) =~= t.subrange(j, f));
        lemma_lines_shift(s, lo, f + 1);
    }
}

/// Behind a text that is empty or ends with a line feed the lines of
/// what follows come after the lines of that text.
pub proof fn lemma_lines_concat(x: Seq<u8>, y: Seq<u8>, i: int)
    requires
        0 <= i <= x.len(),
        x.len() == 0 || x.last() == 0x0a,
    ensures
        lines_from(x + y, i) == lines_from(x, i) + lines(y),
    decreases x.len() - i,
{
    let s = x + y;
    if i == x.len() {
        lemma_lines_shift(s, x.len() as int, 0);
        assert(s.subrange(x.len() as int, s.len() as int) =~= y);
        assert(lines_from(x, i) =~= Seq::<Seq<u8>>::empty());
        assert(lines_from(x, i) + lines(y) =~= lines(y));
    } else {
        lemma_seek(x, 0x0a, i);
        let e = line_end(x, i);
        if e == x.len() {
            assert(x[x.len() - 1] != 0x0a);
        }
        lemma_seek_prefix(x, y, 0x0a, i);
        assert(s.subrange(i, e) =~= x.subrange(i, e));
        lemma_lines_concat(x, y, e + 1);
        assert(lines_from(s, i) =~= lines_from(x, i) + lines(y));
    }
}

/// The lines of a stream do not depend on how it was cut into chunks:
/// the lines that are complete after `a` and then `b` are those that were
/// complete after `a`, followed by those that `b` completes of what `a`
/// left unfinished; and what is left unfinished is the same.
pub proof fn lemma_chunks(a: Seq<u8>, b: Seq<u8>)
    ensures
        complete_lines(a + b) == complete_lines(a) + complete_lines(unfinished(a) + b),
        unfinished(a + b) == unfinished(unfinished(a) + b),
{
    let k = framed_len(a);
    let x = a.subrange(0, k);
    let p = unfinished(a);
    let rest = p + b;
    let m = framed_len(rest);
    lemma_framed_len(a);
    lemma_framed_len(rest);
    assert(a + b =~= x + rest);
    lemma_framed_concat(x, rest);
    let z = rest.subrange(0, m);
    assert((a + b).subrange(0, k + m) =~= x + z);
    lemma_lines_concat(x, z, 0);
    assert((a + b).subrange(k + m, (a + b).len() as int) =~= rest.subrange(
        m,
        rest.len() as int,
    ));
}

/// When the stream ends, the lines that were handed out and the rest
/// that is handed out last are together the lines of the whole stream.
pub proof fn lemma_lines_at_end(s: Seq<u8>)
    ensures
        lines_at_end(s) == lines(s),
{
    let k = framed_len(s);
    let x = s.subrange(0, k);
    let p = unfinished(s);
    lemma_framed_len(s);
    assert(s =~= x + p);
    lemma_lines_concat(x, p, 0);
    if p.len() > 0 {
        lemma_seek(p, 0x0a, 0);
        let e = line_end(p, 0);
        if e < p.len() {
            assert(p[e] == s[k + e]);
        }
        assert(p.subrange(0, p.len() as int) =~= p);
        assert(lines_from(p, p.len() as int + 1) =~= Seq::<Seq<u8>>::empty());
        assert(lines(p) =~= seq![p]);
        assert(lines(x) + seq![p] =~= lines(x).push(p));
    } else {
        assert(lines(p) =~= Seq::<Seq<u8>>::empty());
        assert(lines(x) + lines(p) =~= lines(x));
    }
}

/// Index just behind the last line feed of `s`; 0 where `s` holds none.
fn last_line_feed(s: &[u8]) -> (k: usize)
    ensures
        k == framed_len(s@),
        k <= s.len(),
{
    let mut k: usize = s.len();
    assert(s@.subrange(0, k as int) =~= s@);
    while k > 0 && s[k - 1] != 0x0a
        invariant
            k <= s.len(),
            framed_len(s@) == framed_len(s@.subrange(0, k as int)),
        decreases k,
    {
        assert(s@.subrange(0, k as int).drop_last() =~= s@.subrange(0, k - 1));
        k -= 1;
    }
    k
}

/// The complete lines of `s`, and what follows its last line feed.
fn frame(s: &[u8]) -> (r: (Vec<Vec<u8>>, Vec<u8>))
    ensures
        views(r.0@) == complete_lines(s@),
        r.1@ == unfinished(s@),
{
    let k = last_line_feed(s);
    let rows = split_lines(vstd::slice::slice_subrange(s, 0, k));
    let rest = copy_range(s, k, s.len());
    (rows, rest)
}

/// The receiving end of a stream of lines.  Its view is what has arrived
/// behind the last line feed.
pub struct LineFramer {
    pending: Vec<u8>,
}

impl View for LineFramer {
    type V = Seq<u8>;

    closed spec fn view(&self) -> Seq<u8> {
        self.pending@
    }
}

impl LineFramer {
    /// A framer at the start of a stream.
    pub fn new() -> (f: Self)
        ensures
            f@ == Seq::<u8>::empty(),
    {
        LineFramer { pending: Vec::new() }
    }

    /// Takes the next chunk of the stream and hands out the lines that it
    /// completes, in order and without their line endings.
    pub fn push(&mut self, chunk: &[u8]) -> (rows: Vec<Vec<u8>>)
        ensures
            views(rows@) == complete_lines(old(self)@ + chunk@),
            final(self)@ == unfinished(old(self)@ + chunk@),
    {
        let mut data: Vec<u8> = Vec::new();
        std::mem::swap(&mut data, &mut self.pending);
        append(&mut data, chunk);
        let (rows, rest) = frame(data.as_slice());
        self.pending = rest;
        rows
    }

    /// Ends the stream: what arrived behind the last line feed is handed
    /// out as the last line, unless it is empty.
    pub fn finish(&mut self) -> (last: Option<Vec<u8>>)
        ensures
            final(self)@ == Seq::<u8>::empty(),
            match last {
                Some(row) => old(self)@.len() > 0 && row@ == old(self)@,
                None => old(self)@.len() == 0,
            },
    {
        if self.pending.len() == 0 {
            None
        } else {
            let mut row: Vec<u8> = Vec::new();
            std::mem::swap(&mut row, &mut self.pending);
            Some(row)
        }
    }
}

} // verus!
