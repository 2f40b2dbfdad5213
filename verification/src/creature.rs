pub mod ability;
pub mod alignment;
pub mod damage;
pub mod health;
pub mod size;
pub mod status;

use vstd::prelude::*;
use std::rc::Rc;

verus! {

/// An opaque, totally ordered creature identifier, used only as a key.
#[derive(Debug, Clone, Copy, PartialEq, Eq, PartialOrd, Ord, Hash, Structural)]
pub struct CID(pub u64);

/// A kind of creature: its scores, alignment, and damage modifier table.
#[derive(Debug)]
pub struct Creature {
    pub scores: ability::AbilityScores,
    pub align: alignment::Alignment,
    pub dmgmods: damage::Modifiers,
}

/// One creature on the field: its identity, kind, position, and health.
#[derive(Debug)]
pub struct State {
    pub id: CID,
    pub creature: Rc<Creature>,
    pub loc: crate::world::space::Location,
    pub health: health::Health,
}

} // verus!
