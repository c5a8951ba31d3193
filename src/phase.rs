use vstd::prelude::*;

verus! {

/// Which of the four pixel rows of a braille cell the current image row fills.
#[derive(Clone, Copy, Debug, PartialEq, Eq, Structural)]
pub enum State {
    S0,
    S1,
    S2,
    S3,
}

impl State {
    /// The row of the cell, from 0 (top) to 3 (bottom).
    pub open spec fn index(self) -> nat {
        match self {
            State::S0 => 0,
            State::S1 => 1,
            State::S2 => 2,
            State::S3 => 3,
        }
    }

    /// Steps to the next row of the cell, wrapping from the bottom row to the top.
    pub fn next_state(&self) -> (r: Self)
        ensures
            r.index() == (self.index() + 1) % 4,
    {
        match self {
            State::S0 => State::S1,
            State::S1 => State::S2,
            State::S2 => State::S3,
            State::S3 => State::S0,
        }
    }
}

} // verus!
