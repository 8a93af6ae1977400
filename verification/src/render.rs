//! Rendering of the session display: a status header followed by a
//! fenced block of exactly 16 lines.
//!
//! The block is the display window padded with blank filler lines (a
//! single space, so the renderer cannot collapse them) to a constant
//! height, which keeps the surface from jittering as lines arrive.

use vstd::prelude::*;

use crate::aggregator::WINDOW_LINES;

verus! {

/// A filler line: one space character.
pub open spec fn blank_line() -> Seq<u8> {
    seq![32u8]
}

/// The display window padded at its end with blank lines up to the
/// constant height of 16.
pub open spec fn padded_window(lines: Seq<Seq<u8>>) -> Seq<Seq<u8>> {
    lines + Seq::new((if lines.len() <= WINDOW_LINES {
        WINDOW_LINES - lines.len()
    } else {
        0
    }) as nat, |i: int| blank_line())
}

/// Constant render height: for any occupancy up to the window capacity,
/// the rendered block holds exactly 16 lines, the buffered ones in
/// order, then blank filler.
pub proof fn lemma_constant_render_height(lines: Seq<Seq<u8>>)
    requires
        lines.len() <= WINDOW_LINES,
    ensures
        padded_window(lines).len() == WINDOW_LINES,
        forall|i: int| 0 <= i < lines.len() ==> padded_window(lines)[i] == lines[i],
        forall|i: int|
            lines.len() <= i < WINDOW_LINES ==> padded_window(lines)[i] == blank_line(),
{
}

/// The bytes of "Session expires " (the note and a period follow).
pub open spec fn header_live_prefix() -> Seq<u8> {
    seq![83u8, 101, 115, 115, 105, 111, 110, 32, 101, 120, 112, 105, 114, 101, 115, 32]
}

/// The bytes of "Session expired.".
pub open spec fn header_expired() -> Seq<u8> {
    seq![83u8, 101, 115, 115, 105, 111, 110, 32, 101, 120, 112, 105, 114, 101, 100, 46]
}

/// The status header: while output still flows, when the session
/// expires (the platform renders the note as a relative time); after a
/// zero-length read, that it has expired.
pub open spec fn header_bytes(live: bool, note: Seq<u8>) -> Seq<u8> {
    if live {
        header_live_prefix() + note + seq![46u8]
    } else {
        header_expired()
    }
}

/// A code fence followed by a line break.
pub open spec fn fence_open() -> Seq<u8> {
    seq![96u8, 96, 96, 10]
}

/// The closing code fence.
pub open spec fn fence_close() -> Seq<u8> {
    seq![96u8, 96, 96]
}

/// The block lines joined, each terminated by a line break.
pub open spec fn join_lines(ws: Seq<Seq<u8>>) -> Seq<u8>
    decreases ws.len(),
{
    if ws.len() == 0 {
        Seq::empty()
    } else {
        join_lines(ws.drop_last()) + ws.last() + seq![10u8]
    }
}

/// The full display text for one iteration.
pub open spec fn frame_bytes(lines: Seq<Seq<u8>>, live: bool, note: Seq<u8>) -> Seq<u8> {
    header_bytes(live, note) + fence_open() + join_lines(padded_window(lines)) + fence_close()
}

fn append_bytes(out: &mut Vec<u8>, src: &Vec<u8>)
    ensures
        final (out)@ == old(out)@ + src@,
{
    let mut j: usize = 0;
    while j < src.len()
        invariant
            j <= src.len(),
            out@ == old(out)@ + src@.take(j as int),
        decreases src.len() - j,
    {
        out.push(src[j]);
        assert(out@ =~= old(out)@ + src@.take(j + 1));
        j += 1;
    }
    assert(out@ =~= old(out)@ + src@);
}

/// Builds the display text: the status header, then a fenced block of
/// exactly 16 lines — the buffered lines in order, padded with blank
/// filler lines.
pub fn render_frame(lines: &Vec<Vec<u8>>, live: bool, note: &Vec<u8>) -> (out: Vec<u8>)
    requires
        lines@.len() <= WINDOW_LINES,
    ensures
        out@ == frame_bytes(lines@.map_values(|l: Vec<u8>| l@), live, note@),
{
    let ghost views = lines@.map_values(|l: Vec<u8>| l@);
    let ghost window = padded_window(views);
    let mut out: Vec<u8> = Vec::new();
    if live {
        let prefix: Vec<u8> = vec![
            83u8,
            101,
            115,
            115,
            105,
            111,
            110,
            32,
            101,
            120,
            112,
            105,
            114,
            101,
            115,
            32,
        ];
        assert(prefix@ =~= header_live_prefix());
        append_bytes(&mut out, &prefix);
        append_bytes(&mut out, note);
        out.push(46u8);
        assert(out@ =~= header_bytes(live, note@));
    } else {
        let expired: Vec<u8> = vec![
            83u8,
            101,
            115,
            115,
            105,
            111,
            110,
            32,
            101,
            120,
            112,
            105,
            114,
            101,
            100,
            46,
        ];
        assert(expired@ =~= header_expired());
        append_bytes(&mut out, &expired);
        assert(out@ =~= header_bytes(live, note@));
    }
    out.push(96u8);
    out.push(96u8);
    out.push(96u8);
    out.push(10u8);
    assert(out@ =~= header_bytes(live, note@) + fence_open());
    let ghost head = out@;
    let mut i: usize = 0;
    while i < lines.len()
        invariant
            i <= lines.len(),
            views == lines@.map_values(|l: Vec<u8>| l@),
            head == header_bytes(live, note@) + fence_open(),
            out@ == head + join_lines(views.take(i as int)),
        decreases lines.len() - i,
    {
        append_bytes(&mut out, &lines[i]);
        out.push(10u8);
        proof {
            assert(views.take(i + 1).drop_last() =~= views.take(i as int));
            assert(views.take(i + 1).last() == views[i as int]);
            assert(out@ =~= head + join_lines(views.take(i + 1)));
        }
        i += 1;
    }
    proof {
        assert(views.take(views.len() as int) =~= views);
        assert(window.take(views.len() as int) =~= views);
    }
    let mut pad: usize = lines.len();
    while pad < WINDOW_LINES
        invariant
            views.len() <= pad <= WINDOW_LINES,
            head == header_bytes(live, note@) + fence_open(),
            out@ == head + join_lines(window.take(pad as int)),
            window == padded_window(views),
        decreases WINDOW_LINES - pad,
    {
        out.push(32u8);
        out.push(10u8);
        proof {
            assert(window.take(pad + 1).drop_last() =~= window.take(pad as int));
            assert(window.take(pad + 1).last() == blank_line());
            assert(out@ =~= head + join_lines(window.take(pad + 1)));
        }
        pad += 1;
    }
    proof {
        assert(window.take(WINDOW_LINES as int) =~= window);
    }
    out.push(96u8);
    out.push(96u8);
    out.push(96u8);
    assert(out@ =~= frame_bytes(views, live, note@));
    out
}

} // verus!
