//! How entities move.

use vstd::prelude::*;

verus! {

/// Where an entity may walk.
#[derive(Clone, Copy, Debug, PartialEq, Eq)]
pub enum MoveRestrict {
    Normal,
    Blocked,
    BlockedNormal,
    Indoors,
    Outdoors,
    NoMove,
    PassThru,
}

impl MoveRestrict {
    /// The number that stands for the restriction on the wire and in the
    /// cache.
    pub fn id(&self) -> (id: u8)
        ensures
            id == match *self {
                MoveRestrict::Normal => 0u8,
                MoveRestrict::Blocked => 1u8,
                MoveRestrict::BlockedNormal => 2u8,
                MoveRestrict::Indoors => 3u8,
                MoveRestrict::Outdoors => 4u8,
                MoveRestrict::NoMove => 5u8,
                MoveRestrict::PassThru => 6u8,
            },
    {
        match self {
            MoveRestrict::Normal => 0,
            MoveRestrict::Blocked => 1,
            MoveRestrict::BlockedNormal => 2,
            MoveRestrict::Indoors => 3,
            MoveRestrict::Outdoors => 4,
            MoveRestrict::NoMove => 5,
            MoveRestrict::PassThru => 6,
        }
    }
}

/// What stands in an entity's way.
#[derive(Clone, Copy, Debug, PartialEq, Eq)]
pub enum BlockWalk {
    Nothing,
    Npc,
    All,
}

/// How an entity picks its steps.
#[derive(Clone, Copy, Debug, PartialEq, Eq)]
pub enum MoveStrategy {
    Smart,
    Naive,
    Fly,
}

} // verus!
