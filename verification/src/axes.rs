//! Coordinate axes and the six axis-aligned directions.
//!
//! Contact and collision tests walk the axes in the fixed priority order
//! Z, then Y, then X, so that a floor contact wins over a wall contact
//! when a box is flush with both at once.

use vstd::prelude::*;

verus! {

/// One of the three coordinate axes.
#[derive(Clone, Copy, Debug, PartialEq, Eq, Structural)]
pub enum Axis {
    X,
    Y,
    Z,
}

/// One of the six axis-aligned directions: positive or negative X, Y, Z.
#[derive(Clone, Copy, Debug, PartialEq, Eq, Structural)]
pub enum Direction {
    PX,
    PY,
    PZ,
    NX,
    NY,
    NZ,
}

impl Axis {
    /// The axis to the "left": X maps to Z, Y to X, Z to Y.
    pub open spec fn spec_l(self) -> Axis {
        match self {
            Axis::X => Axis::Z,
            Axis::Y => Axis::X,
            Axis::Z => Axis::Y,
        }
    }

    /// The axis to the "right": X maps to Y, Y to Z, Z to X.
    pub open spec fn spec_r(self) -> Axis {
        match self {
            Axis::X => Axis::Y,
            Axis::Y => Axis::Z,
            Axis::Z => Axis::X,
        }
    }

    /// The axis to the "left"; with `self` it completes a basis.
    #[verifier::when_used_as_spec(spec_l)]
    pub fn l(self) -> (r: Axis)
        ensures
            r == self.spec_l(),
    {
        match self {
            Axis::X => Axis::Z,
            Axis::Y => Axis::X,
            Axis::Z => Axis::Y,
        }
    }

    /// The axis to the "right"; with `self` it completes a basis.
    #[verifier::when_used_as_spec(spec_r)]
    pub fn r(self) -> (r: Axis)
        ensures
            r == self.spec_r(),
    {
        match self {
            Axis::X => Axis::Y,
            Axis::Y => Axis::Z,
            Axis::Z => Axis::X,
        }
    }

    /// The positive direction along this axis.
    pub open spec fn spec_p(self) -> Direction {
        match self {
            Axis::X => Direction::PX,
            Axis::Y => Direction::PY,
            Axis::Z => Direction::PZ,
        }
    }

    /// The negative direction along this axis.
    pub open spec fn spec_n(self) -> Direction {
        match self {
            Axis::X => Direction::NX,
            Axis::Y => Direction::NY,
            Axis::Z => Direction::NZ,
        }
    }

    /// The positive direction along this axis.
    #[verifier::when_used_as_spec(spec_p)]
    pub fn p(self) -> (r: Direction)
        ensures
            r == self.spec_p(),
    {
        match self {
            Axis::X => Direction::PX,
            Axis::Y => Direction::PY,
            Axis::Z => Direction::PZ,
        }
    }

    /// The negative direction along this axis.
    #[verifier::when_used_as_spec(spec_n)]
    pub fn n(self) -> (r: Direction)
        ensures
            r == self.spec_n(),
    {
        match self {
            Axis::X => Direction::NX,
            Axis::Y => Direction::NY,
            Axis::Z => Direction::NZ,
        }
    }
}

impl Direction {
    /// The axis this direction runs along.
    pub open spec fn spec_axis(self) -> Axis {
        match self {
            Direction::PX | Direction::NX => Axis::X,
            Direction::PY | Direction::NY => Axis::Y,
            Direction::PZ | Direction::NZ => Axis::Z,
        }
    }

    /// Whether this is a positive-axis direction.
    pub open spec fn spec_is_positive(self) -> bool {
        match self {
            Direction::PX | Direction::PY | Direction::PZ => true,
            Direction::NX | Direction::NY | Direction::NZ => false,
        }
    }

    /// The axis this direction runs along.
    #[verifier::when_used_as_spec(spec_axis)]
    pub fn axis(self) -> (r: Axis)
        ensures
            r == self.spec_axis(),
    {
        match self {
            Direction::PX | Direction::NX => Axis::X,
            Direction::PY | Direction::NY => Axis::Y,
            Direction::PZ | Direction::NZ => Axis::Z,
        }
    }

    /// Whether this is a positive-axis direction.
    #[verifier::when_used_as_spec(spec_is_positive)]
    pub fn is_positive(self) -> (r: bool)
        ensures
            r == self.spec_is_positive(),
    {
        match self {
            Direction::PX | Direction::PY | Direction::PZ => true,
            Direction::NX | Direction::NY | Direction::NZ => false,
        }
    }

    /// Whether this is a negative-axis direction.
    pub fn is_negative(self) -> (r: bool)
        ensures
            r == !self.spec_is_positive(),
    {
        match self {
            Direction::NX | Direction::NY | Direction::NZ => true,
            Direction::PX | Direction::PY | Direction::PZ => false,
        }
    }
}

/// Inclusive integer range walked from `start` toward `end`, one step of
/// `1` or `-1` at a time, whichever points at `end`.
pub struct DirectionalRange {
    pub start: i64,
    pub end: i64,
    pub current: Option<i64>,
}

impl DirectionalRange {
    /// A fresh range; the first `next` yields `start`.
    pub fn new(start: i64, end: i64) -> (r: DirectionalRange)
        ensures
            r.start == start,
            r.end == end,
            r.current is None,
    {
        DirectionalRange { start, end, current: None }
    }

    /// The next lattice value toward `end`, or `None` past the end.
    pub fn next(&mut self) -> (r: Option<i64>)
        ensures
            final(self).start == old(self).start,
            final(self).end == old(self).end,
            r == final(self).current,
            old(self).current is None ==> r == Some(old(self).start),
            old(self).current matches Some(p) ==> (p < old(self).end ==> r == Some((p + 1) as i64)),
            old(self).current matches Some(p) ==> (p > old(self).end ==> r == Some((p - 1) as i64)),
            old(self).current matches Some(p) ==> (p == old(self).end ==> r is None),
    {
        self.current = match self.current {
            None => Some(self.start),
            Some(position) => {
                if position < self.end {
                    Some(position + 1)
                } else if position > self.end {
                    Some(position - 1)
                } else {
                    None
                }
            },
        };
        self.current
    }
}

} // verus!
