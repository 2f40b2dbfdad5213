use vstd::prelude::*;

verus! {

/// An instant, at round granularity.
#[derive(Debug, Clone, Copy, PartialEq, Eq, PartialOrd, Ord, Hash, Structural)]
pub struct Round(pub u64);

/// A duration, in rounds.
#[derive(Debug, Clone, Copy, PartialEq, Eq, PartialOrd, Ord, Hash, Structural)]
pub struct Rounds(pub u64);

/// An instant, at turn granularity.
#[derive(Debug, Clone, Copy, PartialEq, Eq, PartialOrd, Ord, Hash, Structural)]
pub struct Turn(pub u64);

/// A duration, in turns.
#[derive(Debug, Clone, Copy, PartialEq, Eq, PartialOrd, Ord, Hash, Structural)]
pub struct Turns(pub u64);

pub const SECS_PER_ROUND: u64 = 6;

pub const ROUNDS_PER_MINUTE: u64 = 60 / SECS_PER_ROUND;

pub const ROUNDS_PER_TEN_MINUTES: u64 = 10 * ROUNDS_PER_MINUTE;

pub const ROUNDS_PER_HOUR: u64 = 60 * ROUNDS_PER_MINUTE;

/// The current position in the encounter's timeline.
#[derive(Debug, Clone, Copy, PartialEq, Eq, PartialOrd, Ord, Hash, Structural)]
pub struct Time {
    pub round: Round,
    pub turn: Turn,
}

impl Round {
    /// The instant `d` rounds later; the end of time saturates.
    pub fn after(self, d: Rounds) -> (r: Round)
        ensures
            r.0 == if self.0 + d.0 > u64::MAX {
                u64::MAX as int
            } else {
                self.0 + d.0
            },
    {
        match self.0.checked_add(d.0) {
            Some(v) => Round(v),
            None => Round(u64::MAX),
        }
    }
}

} // verus!
