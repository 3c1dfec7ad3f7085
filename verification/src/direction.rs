//! Headings of the snake and the rule that forbids turning back on itself.

use vstd::prelude::*;

verus! {

/// A heading, or `Straight` for "no new heading requested".
#[derive(Clone, Copy, Debug, PartialEq, Eq, Structural)]
pub enum Direction {
    Left,
    Right,
    Up,
    Down,
    Straight,
}

impl Direction {
    /// Horizontal displacement of one move with this heading.
    pub open spec fn dx(self) -> int {
        match self {
            Direction::Left => -1,
            Direction::Right => 1,
            _ => 0,
        }
    }

    /// Vertical displacement of one move with this heading. The y axis
    /// points down, so `Up` decreases y.
    pub open spec fn dy(self) -> int {
        match self {
            Direction::Up => -1,
            Direction::Down => 1,
            _ => 0,
        }
    }

    /// The exact reverse of a heading. `Straight` has none and is its own.
    pub open spec fn spec_opposite(self) -> Direction {
        match self {
            Direction::Left => Direction::Right,
            Direction::Right => Direction::Left,
            Direction::Up => Direction::Down,
            Direction::Down => Direction::Up,
            Direction::Straight => Direction::Straight,
        }
    }

    /// Whether a snake heading `self` takes up the requested heading: it
    /// does unless nothing was requested or the request is the exact
    /// reverse of `self`.
    pub open spec fn spec_accepts(self, requested: Direction) -> bool {
        requested != Direction::Straight && requested != self.spec_opposite()
    }

    /// The heading that the snake moves with when it heads `self` and
    /// `requested` is asked of it.
    pub open spec fn spec_turned(self, requested: Direction) -> Direction {
        if self.spec_accepts(requested) {
            requested
        } else {
            self
        }
    }

    #[verifier::when_used_as_spec(spec_opposite)]
    pub fn opposite(self) -> (r: Direction)
        ensures
            r == self.spec_opposite(),
    {
        match self {
            Direction::Left => Direction::Right,
            Direction::Right => Direction::Left,
            Direction::Up => Direction::Down,
            Direction::Down => Direction::Up,
            Direction::Straight => Direction::Straight,
        }
    }

    #[verifier::when_used_as_spec(spec_accepts)]
    pub fn accepts(self, requested: Direction) -> (r: bool)
        ensures
            r == self.spec_accepts(requested),
    {
        requested != Direction::Straight && requested != self.opposite()
    }

    #[verifier::when_used_as_spec(spec_turned)]
    pub fn turned(self, requested: Direction) -> (r: Direction)
        ensures
            r == self.spec_turned(requested),
    {
        if self.accepts(requested) {
            requested
        } else {
            self
        }
    }
}

/// Turning back is never taken up: asking for the reverse of the current
/// heading leaves the snake on the heading it would keep with no request
/// at all.
pub proof fn lemma_reverse_request_is_ignored(current: Direction)
    ensures
        current.turned(current.opposite()) == current.turned(Direction::Straight),
        current.turned(Direction::Straight) == current,
{
}

} // verus!
