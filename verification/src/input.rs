//! The abstracted input state a tick consumes: one flag per logical action.

use vstd::prelude::*;

verus! {

/// Pressed state of the three logical actions during one tick.
#[derive(Clone, Copy, PartialEq, Eq, Structural, Debug)]
pub struct Input {
    pub left: bool,
    pub right: bool,
    pub serve: bool,
}

impl Input {
    pub fn new(left: bool, right: bool, serve: bool) -> (r: Input)
        ensures
            r == (Input { left, right, serve }),
    {
        Input { left, right, serve }
    }
}

} // verus!
