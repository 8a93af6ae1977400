//! Trusted boundary around the fixed-capacity ring buffer that backs the
//! display window of logical lines.
//!
//! The window holds the last 16 logical lines of process output, oldest
//! first; pushing onto a full window evicts the oldest line.

use vstd::prelude::*;

verus! {

#[verifier::external_type_specification]
#[verifier::external_body]
#[verifier::reject_recursive_types(T)]
pub struct ExCircularBuffer<const N: usize, T>(circular_buffer::CircularBuffer<N, T>);

/// The lines the ring buffer holds, oldest first.
pub uninterp spec fn line_window(b: circular_buffer::CircularBuffer<16, Vec<u8>>) -> Seq<Seq<u8>>;

/// Relies on `CircularBuffer::new`: the buffer starts empty.
#[verifier::external_body]
pub(crate) fn window_new() -> (b: circular_buffer::CircularBuffer<16, Vec<u8>>)
    ensures
        line_window(b) == Seq::<Seq<u8>>::empty(),
{
    circular_buffer::CircularBuffer::new()
}

/// Relies on `CircularBuffer::push_back`: appends at the back; on a full
/// buffer the front (oldest) element is overwritten.
#[verifier::external_body]
pub(crate) fn window_push(b: &mut circular_buffer::CircularBuffer<16, Vec<u8>>, line: Vec<u8>)
    ensures
        line_window(*final(b)) == (if line_window(*old(b)).len() < 16 {
            line_window(*old(b)).push(line@)
        } else {
            line_window(*old(b)).skip(1).push(line@)
        }),
{
    b.push_back(line);
}

/// Relies on `CircularBuffer::pop_back`: removes and returns the back
/// (newest) element; `None` on an empty buffer.
#[verifier::external_body]
pub(crate) fn window_pop_back(b: &mut circular_buffer::CircularBuffer<16, Vec<u8>>) -> (r: Option<
    Vec<u8>,
>)
    ensures
        line_window(*old(b)).len() == 0 ==> r is None && line_window(*final(b)) == line_window(
            *old(b),
        ),
        line_window(*old(b)).len() > 0 ==> (match r {
            Some(v) => v@ == line_window(*old(b)).last() && line_window(*final(b)) == line_window(
                *old(b),
            ).drop_last(),
            None => false,
        }),
{
    b.pop_back()
}

/// Relies on `CircularBuffer::len`: the number of elements held.
#[verifier::external_body]
pub(crate) fn window_len(b: &circular_buffer::CircularBuffer<16, Vec<u8>>) -> (n: usize)
    ensures
        n == line_window(*b).len(),
{
    b.len()
}

/// Relies on `CircularBuffer::to_vec`: clones the elements into a `Vec`,
/// oldest first, leaving the buffer unchanged.
#[verifier::external_body]
pub(crate) fn window_to_vec(b: &circular_buffer::CircularBuffer<16, Vec<u8>>) -> (v: Vec<Vec<u8>>)
    ensures
        v@.len() == line_window(*b).len(),
        forall|i: int| 0 <= i < v@.len() ==> v@[i]@ == line_window(*b)[i],
{
    b.to_vec()
}

} // verus!
