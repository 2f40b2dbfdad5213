use vstd::prelude::*;

verus! {

/// A distance in grid squares.
#[derive(Debug, Clone, Copy, PartialEq, Eq, PartialOrd, Ord, Hash, Structural)]
pub struct Squares(pub u64);

/// A distance in feet.
#[derive(Debug, Clone, Copy, PartialEq, Eq, PartialOrd, Ord, Hash, Structural)]
pub struct Feet(pub u64);

pub const FEET_PER_SQUARE: u64 = 5;

/// A position on the grid.
#[derive(Debug, Clone, Copy, PartialEq, Eq, PartialOrd, Ord, Hash, Structural)]
pub struct Location {
    pub x: i64,
    pub y: i64,
}

impl From<Squares> for Feet {
    /// Five feet to the square; astronomically large inputs saturate.
    fn from(s: Squares) -> (r: Feet) {
        match s.0.checked_mul(FEET_PER_SQUARE) {
            Some(v) => Feet(v),
            None => Feet(u64::MAX),
        }
    }
}

impl vstd::std_specs::convert::FromSpecImpl<Squares> for Feet {
    open spec fn obeys_from_spec() -> bool {
        true
    }

    open spec fn from_spec(s: Squares) -> Feet {
        if s.0 * FEET_PER_SQUARE > u64::MAX {
            Feet(u64::MAX)
        } else {
            Feet((s.0 * FEET_PER_SQUARE) as u64)
        }
    }
}

impl From<Feet> for Squares {
    fn from(f: Feet) -> (r: Squares) {
        Squares(f.0 / FEET_PER_SQUARE)
    }
}

impl vstd::std_specs::convert::FromSpecImpl<Feet> for Squares {
    open spec fn obeys_from_spec() -> bool {
        true
    }

    open spec fn from_spec(f: Feet) -> Squares {
        Squares((f.0 / FEET_PER_SQUARE) as u64)
    }
}

} // verus!
