use vstd::prelude::*;

verus! {

/// A source location: zero-based line and column.
#[derive(Debug, Clone, Copy, PartialEq, Eq, Structural, Default)]
pub struct Position {
    pub ln: usize,
    pub col: usize,
}

impl Position {
    pub fn new(ln: usize, col: usize) -> (r: Position)
        ensures
            r.ln == ln,
            r.col == col,
    {
        Position { ln, col }
    }
}

/// A value paired with the source position it came from.
#[derive(Debug, Clone, Copy)]
pub struct Located<T> {
    pub value: T,
    pub pos: Position,
}

impl<T> Located<T> {
    pub fn new(value: T, pos: Position) -> (r: Located<T>)
        ensures
            r.value == value,
            r.pos == pos,
    {
        Located { value, pos }
    }

    /// Transforms the carried value, keeping the position.
    pub fn map<U, F: Fn(T) -> U>(self, f: F) -> (r: Located<U>)
        requires
            f.requires((self.value,)),
        ensures
            f.ensures((self.value,), r.value),
            r.pos == self.pos,
    {
        let Located { value, pos } = self;
        Located { value: f(value), pos }
    }
}

} // verus!
