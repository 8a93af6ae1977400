//! Bounded line buffer with partial-line stitching across read chunks.
//!
//! Process output arrives as arbitrary byte chunks.  The aggregator
//! reassembles logical lines (terminated by a line-break byte, with one
//! carriage return before it dropped) across chunk boundaries and keeps
//! the last 16 of them, oldest first.  The model processes one byte at a
//! time, so how the stream is cut into chunks cannot affect the result.

use vstd::prelude::*;

use crate::line_buffer::{
    line_window, window_len, window_new, window_pop_back, window_push, window_to_vec,
};

verus! {

/// Number of logical lines the display window holds.
pub const WINDOW_LINES: usize = 16;

/// Mathematical state of the aggregator: the buffered lines, oldest
/// first, and whether the newest one is still unterminated.
#[verifier::ext_equal]
pub ghost struct AggregatorModel {
    pub lines: Seq<Seq<u8>>,
    pub unfinished: bool,
}

/// The state of an aggregator that has seen no output yet.
pub open spec fn empty_model() -> AggregatorModel {
    AggregatorModel { lines: Seq::empty(), unfinished: false }
}

/// Drops one carriage return at the end of a completed line.
pub open spec fn strip_cr(line: Seq<u8>) -> Seq<u8> {
    if line.len() > 0 && line.last() == 13 {
        line.drop_last()
    } else {
        line
    }
}

/// Appends a line to the window, evicting the oldest when full.
pub open spec fn push_evict(lines: Seq<Seq<u8>>, line: Seq<u8>) -> Seq<Seq<u8>> {
    if lines.len() < WINDOW_LINES {
        lines.push(line)
    } else {
        lines.skip(1).push(line)
    }
}

/// One byte of output applied to the aggregator state: a line-break byte
/// completes the open line; any other byte extends it, opening a new line
/// (and evicting the oldest) when none is open.
pub open spec fn feed_byte(m: AggregatorModel, b: u8) -> AggregatorModel {
    if b == 10 {
        if m.unfinished {
            AggregatorModel {
                lines: m.lines.update(m.lines.len() - 1, strip_cr(m.lines.last())),
                unfinished: false,
            }
        } else {
            AggregatorModel { lines: push_evict(m.lines, Seq::empty()), unfinished: false }
        }
    } else {
        if m.unfinished {
            AggregatorModel {
                lines: m.lines.update(m.lines.len() - 1, m.lines.last().push(b)),
                unfinished: true,
            }
        } else {
            AggregatorModel { lines: push_evict(m.lines, seq![b]), unfinished: true }
        }
    }
}

/// A whole chunk applied byte by byte.
pub open spec fn feed_bytes(m: AggregatorModel, chunk: Seq<u8>) -> AggregatorModel
    decreases chunk.len(),
{
    if chunk.len() == 0 {
        m
    } else {
        feed_byte(feed_bytes(m, chunk.drop_last()), chunk.last())
    }
}

/// The synthetic line recorded when the output stream closes:
/// the bytes of "Session closed".
pub open spec fn closed_line() -> Seq<u8> {
    seq![83u8, 101, 115, 115, 105, 111, 110, 32, 99, 108, 111, 115, 101, 100]
}

/// A sequence of read chunks applied in order.
pub open spec fn feed_chunks(m: AggregatorModel, chunks: Seq<Seq<u8>>) -> AggregatorModel
    decreases chunks.len(),
{
    if chunks.len() == 0 {
        m
    } else {
        feed_bytes(feed_chunks(m, chunks.drop_last()), chunks.last())
    }
}

/// The concatenation of a sequence of read chunks.
pub open spec fn concat_chunks(chunks: Seq<Seq<u8>>) -> Seq<u8>
    decreases chunks.len(),
{
    if chunks.len() == 0 {
        Seq::empty()
    } else {
        concat_chunks(chunks.drop_last()) + chunks.last()
    }
}

/// Partial-line stitching: a byte stream buffers the same whether it
/// arrives as one chunk or split in two at any byte boundary, so a
/// logical line cut anywhere — even inside a multi-byte character —
/// is reassembled exactly.
pub proof fn lemma_partial_line_stitching(m: AggregatorModel, a: Seq<u8>, b: Seq<u8>)
    ensures
        feed_bytes(feed_bytes(m, a), b) == feed_bytes(m, a + b),
    decreases b.len(),
{
    if b.len() == 0 {
        assert(a + b =~= a);
    } else {
        lemma_partial_line_stitching(m, a, b.drop_last());
        assert((a + b).drop_last() =~= a + b.drop_last());
        assert((a + b).last() == b.last());
    }
}

/// Chunking invariance: feeding a sequence of chunks is the same as
/// feeding their concatenation in one piece.
pub proof fn lemma_feed_chunks_concat(m: AggregatorModel, chunks: Seq<Seq<u8>>)
    ensures
        feed_chunks(m, chunks) == feed_bytes(m, concat_chunks(chunks)),
    decreases chunks.len(),
{
    if chunks.len() == 0 {
    } else {
        lemma_feed_chunks_concat(m, chunks.drop_last());
        lemma_partial_line_stitching(m, concat_chunks(chunks.drop_last()), chunks.last());
    }
}

/// The logical lines of a byte stream: the line-break-terminated lines in
/// order, each stripped of the break and of one carriage return before
/// it, and the still-open fragment after the last break, if any.
pub open spec fn split_lines(s: Seq<u8>) -> (Seq<Seq<u8>>, Option<Seq<u8>>)
    decreases s.len(),
{
    if s.len() == 0 {
        (Seq::empty(), None)
    } else {
        let prev = split_lines(s.drop_last());
        let b = s.last();
        if b == 10 {
            match prev.1 {
                Some(frag) => (prev.0.push(strip_cr(frag)), None),
                None => (prev.0.push(Seq::empty()), None),
            }
        } else {
            match prev.1 {
                Some(frag) => (prev.0, Some(frag.push(b))),
                None => (prev.0, Some(seq![b])),
            }
        }
    }
}

/// The last `k` elements of `s` (all of them when `s` is shorter).
pub open spec fn take_last(s: Seq<Seq<u8>>, k: int) -> Seq<Seq<u8>> {
    if s.len() <= k {
        s
    } else {
        s.skip(s.len() - k)
    }
}

proof fn lemma_push_evict_take_last(u: Seq<Seq<u8>>, x: Seq<u8>)
    ensures
        push_evict(take_last(u, WINDOW_LINES as int), x) =~= take_last(u.push(x), WINDOW_LINES as int),
{
}

proof fn lemma_update_take_last(u: Seq<Seq<u8>>, y: Seq<u8>)
    requires
        u.len() > 0,
    ensures
        take_last(u, WINDOW_LINES as int).update(take_last(u, WINDOW_LINES as int).len() - 1, y)
            =~= take_last(u.update(u.len() - 1, y), WINDOW_LINES as int),
{
}

/// The lines an aggregator that started empty holds after a byte stream:
/// the window of the last 16 logical lines, the open fragment counted as
/// the newest line.
pub open spec fn stream_model(s: Seq<u8>) -> AggregatorModel {
    let parts = split_lines(s);
    AggregatorModel {
        lines: take_last(
            match parts.1 {
                Some(frag) => parts.0.push(frag),
                None => parts.0,
            },
            WINDOW_LINES as int,
        ),
        unfinished: parts.1 is Some,
    }
}

/// Feeding a byte stream into an empty aggregator yields exactly the
/// windowed logical lines of the stream.
pub proof fn lemma_feed_bytes_window(s: Seq<u8>)
    ensures
        feed_bytes(empty_model(), s) == stream_model(s),
    decreases s.len(),
{
    if s.len() == 0 {
    } else {
        let t = s.drop_last();
        let b = s.last();
        lemma_feed_bytes_window(t);
        let parts = split_lines(t);
        match parts.1 {
            Some(frag) => {
                let u = parts.0.push(frag);
                if b == 10 {
                    lemma_update_take_last(u, strip_cr(frag));
                    assert(u.update(u.len() - 1, strip_cr(frag)) =~= parts.0.push(
                        strip_cr(frag),
                    ));
                } else {
                    lemma_update_take_last(u, frag.push(b));
                    assert(u.update(u.len() - 1, frag.push(b)) =~= parts.0.push(frag.push(b)));
                }
                assert(feed_bytes(empty_model(), s) =~= stream_model(s));
            },
            None => {
                if b == 10 {
                    lemma_push_evict_take_last(parts.0, Seq::empty());
                } else {
                    lemma_push_evict_take_last(parts.0, seq![b]);
                }
                assert(feed_bytes(empty_model(), s) =~= stream_model(s));
            },
        }
    }
}

/// Line windowing: for any sequence of raw chunks whose concatenation
/// holds more than 16 line-break-terminated lines and no open fragment,
/// the buffer ends as exactly the last 16 of those lines, in order.
pub proof fn lemma_line_windowing(chunks: Seq<Seq<u8>>)
    requires
        split_lines(concat_chunks(chunks)).1 is None,
        split_lines(concat_chunks(chunks)).0.len() > WINDOW_LINES,
    ensures
        feed_chunks(empty_model(), chunks).lines == split_lines(concat_chunks(chunks)).0.skip(
            split_lines(concat_chunks(chunks)).0.len() - WINDOW_LINES,
        ),
        feed_chunks(empty_model(), chunks).lines.len() == WINDOW_LINES,
{
    lemma_feed_chunks_concat(empty_model(), chunks);
    lemma_feed_bytes_window(concat_chunks(chunks));
}

/// Bounded line buffer over the ring-buffered display window.
pub struct OutputAggregator {
    buf: circular_buffer::CircularBuffer<16, Vec<u8>>,
    unfinished: bool,
}

impl View for OutputAggregator {
    type V = AggregatorModel;

    closed spec fn view(&self) -> AggregatorModel {
        AggregatorModel { lines: line_window(self.buf), unfinished: self.unfinished }
    }
}

impl OutputAggregator {
    /// The window never exceeds its capacity, and an unterminated line is
    /// always materialized as the newest window entry.
    pub open spec fn wf(&self) -> bool {
        &&& self@.lines.len() <= WINDOW_LINES
        &&& (self@.unfinished ==> self@.lines.len() > 0)
    }

    pub fn new() -> (r: Self)
        ensures
            r.wf(),
            r@ == empty_model(),
    {
        OutputAggregator { buf: window_new(), unfinished: false }
    }

    /// Feeds one read chunk into the window, stitching its first bytes
    /// onto an unterminated line left by the previous chunk.
    pub fn feed(&mut self, chunk: &[u8])
        requires
            old(self).wf(),
        ensures
            final (self).wf(),
            final (self)@ == feed_bytes(old(self)@, chunk@),
    {
        let ghost m0 = self@;
        let mut i: usize = 0;
        while i < chunk.len()
            invariant
                i <= chunk.len(),
                self.wf(),
                self@ == feed_bytes(m0, chunk@.take(i as int)),
            decreases chunk.len() - i,
        {
            let b = chunk[i];
            let ghost mpre = self@;
            if b == 10 {
                if self.unfinished {
                    let mut last = window_pop_back(&mut self.buf).unwrap();
                    if last.len() > 0 && last[last.len() - 1] == 13 {
                        last.pop();
                    }
                    assert(last@ == strip_cr(mpre.lines.last()));
                    window_push(&mut self.buf, last);
                    self.unfinished = false;
                    proof {
                        assert(self@.lines =~= feed_byte(mpre, b).lines);
                    }
                } else {
                    window_push(&mut self.buf, Vec::new());
                    self.unfinished = false;
                }
            } else {
                if self.unfinished {
                    let mut last = window_pop_back(&mut self.buf).unwrap();
                    last.push(b);
                    window_push(&mut self.buf, last);
                    proof {
                        assert(self@.lines =~= feed_byte(mpre, b).lines);
                    }
                } else {
                    let mut line: Vec<u8> = Vec::new();
                    line.push(b);
                    window_push(&mut self.buf, line);
                    self.unfinished = true;
                }
            }
            proof {
                assert(self@ == feed_byte(mpre, b));
                assert(chunk@.take(i + 1).drop_last() =~= chunk@.take(i as int));
                assert(chunk@.take(i + 1).last() == b);
            }
            i += 1;
        }
        proof {
            assert(chunk@.take(chunk@.len() as int) =~= chunk@);
        }
    }

    /// Records the synthetic "Session closed" line when the stream ends.
    pub fn note_stream_closed(&mut self)
        requires
            old(self).wf(),
        ensures
            final (self).wf(),
            final (self)@.lines == push_evict(old(self)@.lines, closed_line()),
            final (self)@.unfinished == false,
    {
        let line: Vec<u8> = vec![83u8, 101, 115, 115, 105, 111, 110, 32, 99, 108, 111, 115, 101, 100];
        assert(line@ =~= closed_line());
        window_push(&mut self.buf, line);
        self.unfinished = false;
    }

    /// The number of lines currently buffered.
    pub fn line_count(&self) -> (n: usize)
        ensures
            n == self@.lines.len(),
    {
        window_len(&self.buf)
    }

    /// A copy of the buffered lines, oldest first.
    pub fn lines(&self) -> (v: Vec<Vec<u8>>)
        ensures
            v@.len() == self@.lines.len(),
            forall|i: int| 0 <= i < v@.len() ==> v@[i]@ == self@.lines[i],
    {
        window_to_vec(&self.buf)
    }
}

} // verus!
