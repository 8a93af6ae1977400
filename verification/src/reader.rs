//! The decision core of the per-session read/render loop.
//!
//! Each iteration of the loop races a read of the next output chunk
//! against the session deadline and hands the outcome here as one
//! event.  This step function updates the line buffer, evaluates the
//! termination detector, builds the display text, and decides whether
//! an independent teardown must be requested and whether the loop is
//! done.  The caller performs the actual read, the rendering call and
//! the teardown task; it never awaits its own completion.

use vstd::prelude::*;

use crate::aggregator::{closed_line, feed_bytes, push_evict, OutputAggregator};
use crate::detector::any_signals_termination;
use crate::render::frame_bytes;

verus! {

/// What the race between the output stream and the deadline produced:
/// a chunk of fresh bytes, a zero-length read (the stream closed), or
/// the deadline elapsing first.
pub enum ReadEvent {
    Chunk(Vec<u8>),
    Eof,
    DeadlineElapsed,
}

/// What one iteration decided.
pub struct StepOutput {
    /// The full display text to send to the rendering surface.
    pub display: Vec<u8>,
    /// Whether an independent teardown unit must be spawned: the
    /// session must be detached from the registry and closed by an
    /// actor that is not the reader loop itself.
    pub request_teardown: bool,
    /// Whether the loop ends after this iteration.
    pub done: bool,
}

/// One iteration of the read/render loop, applied to the session's
/// line buffer.  `note` is the platform markup for the deadline shown
/// in the live header.
pub fn reader_step(agg: &mut OutputAggregator, event: &ReadEvent, note: &Vec<u8>) -> (r: StepOutput)
    requires
        old(agg).wf(),
    ensures
        final (agg).wf(),
        match event {
            ReadEvent::Chunk(chunk) => {
                &&& final (agg)@ == feed_bytes(old(agg)@, chunk@)
                &&& r.request_teardown == any_signals_termination(final (agg)@.lines)
                &&& r.done == false
                &&& r.display@ == frame_bytes(final (agg)@.lines, true, note@)
            },
            ReadEvent::Eof => {
                &&& final (agg)@.lines == push_evict(old(agg)@.lines, closed_line())
                &&& final (agg)@.unfinished == false
                &&& r.request_teardown == true
                &&& r.done == true
                &&& r.display@ == frame_bytes(final (agg)@.lines, false, note@)
            },
            ReadEvent::DeadlineElapsed => {
                &&& final (agg)@ == old(agg)@
                &&& r.request_teardown == true
                &&& r.done == false
                &&& r.display@ == frame_bytes(old(agg)@.lines, true, note@)
            },
        },
{
    match event {
        ReadEvent::Chunk(chunk) => {
            agg.feed(chunk.as_slice());
            let lines = agg.lines();
            let hit = crate::detector::any_line_matches(&lines);
            proof {
                assert(lines@.map_values(|l: Vec<u8>| l@) =~= agg@.lines);
            }
            let display = crate::render::render_frame(&lines, true, note);
            StepOutput { display, request_teardown: hit, done: false }
        },
        ReadEvent::Eof => {
            agg.note_stream_closed();
            let lines = agg.lines();
            proof {
                assert(lines@.map_values(|l: Vec<u8>| l@) =~= agg@.lines);
            }
            let display = crate::render::render_frame(&lines, false, note);
            StepOutput { display, request_teardown: true, done: true }
        },
        ReadEvent::DeadlineElapsed => {
            let lines = agg.lines();
            proof {
                assert(lines@.map_values(|l: Vec<u8>| l@) =~= agg@.lines);
            }
            let display = crate::render::render_frame(&lines, true, note);
            StepOutput { display, request_teardown: true, done: false }
        },
    }
}

} // verus!
