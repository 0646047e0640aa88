//! Edge classification for one bus line.
//!
//! Each sample is compared with the previous level of the same line; the
//! instantaneous behaviour of the line is rising, falling, or steady.

use vstd::prelude::*;

verus! {

/// Instantaneous behaviour of one line between two consecutive samples.
#[derive(Clone, Copy, Debug)]
pub enum LineEdge {
    Rising,
    Falling,
    Steady,
}

/// The edge a line shows when its level moves from `prev` to `curr`.
pub open spec fn edge_of(prev: bool, curr: bool) -> LineEdge {
    match (prev, curr) {
        (false, false) => LineEdge::Steady,
        (false, true) => LineEdge::Rising,
        (true, false) => LineEdge::Falling,
        (true, true) => LineEdge::Steady,
    }
}

/// Classify one line: total over all four combinations of previous and
/// current level, with no state of its own.
pub fn classify(prev: bool, curr: bool) -> (r: LineEdge)
    ensures
        r == edge_of(prev, curr),
{
    match (prev, curr) {
        (false, false) => LineEdge::Steady,
        (false, true) => LineEdge::Rising,
        (true, false) => LineEdge::Falling,
        (true, true) => LineEdge::Steady,
    }
}

} // verus!
