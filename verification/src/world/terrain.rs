use vstd::prelude::*;
use crate::creature::CID;

verus! {

/// How a square can be moved through.
#[derive(Debug, Clone, Copy, PartialEq, Eq, Hash, Structural)]
pub enum Terrain {
    Passable,
    Difficult,
    Unpassable,
}

impl Default for Terrain {
    fn default() -> (r: Terrain)
        ensures
            r == Terrain::Unpassable,
    {
        Terrain::Unpassable
    }
}

/// One square of the map: its terrain and the creatures standing in it.
#[derive(Debug)]
pub struct Square {
    pub terrain: Terrain,
    pub occupants: Vec<CID>,
}

impl Default for Square {
    fn default() -> (r: Square)
        ensures
            r.terrain == Terrain::Unpassable,
            r.occupants@ == Seq::<CID>::empty(),
    {
        Square { terrain: Terrain::Unpassable, occupants: Vec::new() }
    }
}

} // verus!
