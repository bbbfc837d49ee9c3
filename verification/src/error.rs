use vstd::prelude::*;

verus! {

/// The two ways an operation of the rule engine can fail.
#[derive(Debug, Clone, Copy, PartialEq, Eq)]
pub enum GameError {
    /// `put` targeted a cell that already holds a piece; the board is unchanged.
    OccupiedCell,
    /// A piece was constructed from a truth assignment with bits outside the
    /// four defined property positions.
    InvalidPropertyEncoding,
}

} // verus!
