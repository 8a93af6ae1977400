//! Pure predicate over the buffered lines deciding whether the remote
//! process has signaled completion.
//!
//! The remote side reports its party count on its console; a buffered
//! logical line ending in the bytes of "0 client currently connected"
//! means everyone has left and the session should expire.

use vstd::prelude::*;

verus! {

/// The bytes of "0 client currently connected".
pub open spec fn termination_marker() -> Seq<u8> {
    seq![
        48u8,
        32,
        99,
        108,
        105,
        101,
        110,
        116,
        32,
        99,
        117,
        114,
        114,
        101,
        110,
        116,
        108,
        121,
        32,
        99,
        111,
        110,
        110,
        101,
        99,
        116,
        101,
        100,
    ]
}

/// Whether `pat` is a suffix of `s`.
pub open spec fn is_suffix_of(pat: Seq<u8>, s: Seq<u8>) -> bool {
    pat.len() <= s.len() && s.skip(s.len() - pat.len()) == pat
}

/// Whether one buffered logical line signals completion.
pub open spec fn line_signals_termination(line: Seq<u8>) -> bool {
    is_suffix_of(termination_marker(), line)
}

/// Whether any buffered line signals completion.
pub open spec fn any_signals_termination(lines: Seq<Seq<u8>>) -> bool {
    exists|i: int| 0 <= i < lines.len() && line_signals_termination(lines[i])
}

fn termination_marker_vec() -> (v: Vec<u8>)
    ensures
        v@ == termination_marker(),
{
    let v: Vec<u8> = vec![
        48u8,
        32,
        99,
        108,
        105,
        101,
        110,
        116,
        32,
        99,
        117,
        114,
        114,
        101,
        110,
        116,
        108,
        121,
        32,
        99,
        111,
        110,
        110,
        101,
        99,
        116,
        101,
        100,
    ];
    assert(v@ =~= termination_marker());
    v
}

/// Whether this line ends with the termination marker.
pub fn line_matches(line: &Vec<u8>) -> (r: bool)
    ensures
        r == line_signals_termination(line@),
{
    let marker = termination_marker_vec();
    if line.len() < marker.len() {
        return false;
    }
    let offset = line.len() - marker.len();
    let mut j: usize = 0;
    while j < marker.len()
        invariant
            marker@ == termination_marker(),
            marker.len() <= line.len(),
            offset == line.len() - marker.len(),
            j <= marker.len(),
            forall|k: int| 0 <= k < j ==> line@[offset + k] == marker@[k],
        decreases marker.len() - j,
    {
        if line[offset + j] != marker[j] {
            proof {
                assert(line@.skip(line@.len() - marker@.len())[j as int] == line@[offset + j]);
            }
            return false;
        }
        j += 1;
    }
    proof {
        assert(line@.skip(line@.len() - marker@.len()) =~= marker@);
    }
    true
}

/// Whether any of the buffered lines ends with the termination marker.
pub fn any_line_matches(lines: &Vec<Vec<u8>>) -> (r: bool)
    ensures
        r == any_signals_termination(lines@.map_values(|l: Vec<u8>| l@)),
{
    let ghost views = lines@.map_values(|l: Vec<u8>| l@);
    let mut i: usize = 0;
    while i < lines.len()
        invariant
            i <= lines.len(),
            views == lines@.map_values(|l: Vec<u8>| l@),
            forall|k: int| 0 <= k < i ==> !line_signals_termination(views[k]),
        decreases lines.len() - i,
    {
        if line_matches(&lines[i]) {
            assert(views[i as int] == lines@[i as int]@);
            return true;
        }
        i += 1;
    }
    false
}

} // verus!
