use vstd::prelude::*;

verus! {

#[derive(Debug, Clone, Copy, PartialEq, Eq, Structural)]
pub enum Direction {
    Up,
    Down,
    Left,
    Right,
}

impl Direction {
    /// The direction that points the other way along the same axis.
    pub open spec fn reversed(self) -> Direction {
        match self {
            Direction::Up => Direction::Down,
            Direction::Down => Direction::Up,
            Direction::Left => Direction::Right,
            Direction::Right => Direction::Left,
        }
    }

    pub fn opposite(&self) -> (r: Direction)
        ensures
            r == self.reversed(),
    {
        match self {
            Direction::Up => Direction::Down,
            Direction::Down => Direction::Up,
            Direction::Left => Direction::Right,
            Direction::Right => Direction::Left,
        }
    }

    /// Turning around twice gives the direction one started with, and
    /// turning around once never does.
    pub proof fn lemma_reversed_involution(d: Direction)
        ensures
            d.reversed().reversed() == d,
            d.reversed() != d,
    {
    }
}

} // verus!
