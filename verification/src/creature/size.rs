use vstd::prelude::*;
use crate::world::space::Squares;

verus! {

/// A creature's size category.
#[derive(Debug, Clone, Copy, PartialEq, Eq, PartialOrd, Ord, Hash, Structural)]
pub enum Size {
    Tiny,
    Small,
    Medium,
    Large,
    Huge,
    Gargantuan,
}

impl Size {
    pub open spec fn space_spec(self) -> Squares {
        match self {
            Size::Tiny => Squares(0),
            Size::Small => Squares(1),
            Size::Medium => Squares(1),
            Size::Large => Squares(2),
            Size::Huge => Squares(3),
            Size::Gargantuan => Squares(4),
        }
    }

    /// The side length, in grid squares, of the space this size occupies.
    pub fn space(self) -> (r: Squares)
        ensures
            r == self.space_spec(),
    {
        match self {
            Size::Tiny => Squares(0),
            Size::Small | Size::Medium => Squares(1),
            Size::Large => Squares(2),
            Size::Huge => Squares(3),
            Size::Gargantuan => Squares(4),
        }
    }
}

} // verus!
