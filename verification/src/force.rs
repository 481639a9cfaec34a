use vstd::prelude::*;

verus! {

/// One of the two sides on a single chess board.
#[derive(Clone, Copy, PartialEq, Eq, Structural, Debug)]
pub enum Force {
    White,
    Black,
}

impl Force {
    /// The other side.
    pub open spec fn spec_opponent(self) -> Force {
        match self {
            Force::White => Force::Black,
            Force::Black => Force::White,
        }
    }

    #[verifier::when_used_as_spec(spec_opponent)]
    pub fn opponent(self) -> (r: Force)
        ensures
            r == self.spec_opponent(),
    {
        match self {
            Force::White => Force::Black,
            Force::Black => Force::White,
        }
    }
}

} // verus!
