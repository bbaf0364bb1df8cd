use vstd::prelude::*;

verus! {

/// A span of the source text.
#[derive(Debug)]
pub struct Range {
    pub start: Position,
    pub end: Position,
}

/// A byte offset into the source text.
#[derive(Debug, Clone, Copy, PartialEq, Eq, Structural)]
pub struct Position {
    pub offset: usize,
}

impl Position {
    pub fn zero() -> (p: Position)
        ensures
            p.offset == 0,
    {
        Position { offset: 0 }
    }

    pub fn new(offset: usize) -> (p: Position)
        ensures
            p.offset == offset,
    {
        Position { offset }
    }
}

} // verus!
