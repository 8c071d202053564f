//! The characters that the server plays.

use crate::coord_grid::CoordGrid;
use crate::entity::{Entity, EntityBehavior, EntityLifeCycle, PathingEntity};
use crate::move_restrict::{BlockWalk, MoveRestrict, MoveStrategy};
use vstd::prelude::*;

verus! {

/// A character that the server plays.
#[derive(Clone, Copy, Debug)]
pub struct NPC {
    pub pathing_entity: PathingEntity,
    pub move_restrict: MoveRestrict,
    pub block_walk: BlockWalk,
    pub move_strategy: MoveStrategy,
    pub nid: i32,
    /// The id of the character's type in the cache.
    pub id: u16,
}

impl NPC {
    /// A character that finds its way with the naive strategy.
    pub fn new(
        coord: CoordGrid,
        width: u8,
        length: u8,
        lifecycle: EntityLifeCycle,
        nid: i32,
        id: u16,
        move_restrict: MoveRestrict,
        block_walk: BlockWalk,
    ) -> (npc: NPC)
        ensures
            npc.pathing_entity.entity == (Entity {
                coord,
                width,
                length,
                lifecycle,
                lifecycle_tick: 0,
                last_lifecycle_tick: 0,
                active: false,
            }),
            !npc.pathing_entity.delayed,
            npc.move_restrict == move_restrict,
            npc.block_walk == block_walk,
            npc.move_strategy == MoveStrategy::Naive,
            npc.nid == nid,
            npc.id == id,
    {
        NPC {
            pathing_entity: PathingEntity::new(coord, width, length, lifecycle),
            move_restrict,
            block_walk,
            move_strategy: MoveStrategy::Naive,
            nid,
            id,
        }
    }
}

impl EntityBehavior for NPC {
    open spec fn entity(&self) -> Entity {
        self.pathing_entity.entity
    }

    fn coord(&self) -> (coord: CoordGrid) {
        self.pathing_entity.coord()
    }

    fn width(&self) -> (width: u8) {
        self.pathing_entity.width()
    }

    fn length(&self) -> (length: u8) {
        self.pathing_entity.length()
    }

    fn lifecycle(&self) -> (lifecycle: EntityLifeCycle) {
        self.pathing_entity.lifecycle()
    }

    fn active(&self) -> (active: bool) {
        self.pathing_entity.active()
    }

    fn lifecycle_tick(&self) -> (tick: u32) {
        self.pathing_entity.lifecycle_tick()
    }

    fn last_lifecycle_tick(&self) -> (tick: u32) {
        self.pathing_entity.last_lifecycle_tick()
    }

    fn set_coord(&mut self, coord: CoordGrid) {
        self.pathing_entity.set_coord(coord);
    }

    fn set_active(&mut self, active: bool) {
        self.pathing_entity.set_active(active);
    }

    fn set_lifecycle_tick(&mut self, tick: u32) {
        self.pathing_entity.set_lifecycle_tick(tick);
    }

    fn set_last_lifecycle_tick(&mut self, tick: u32) {
        self.pathing_entity.set_last_lifecycle_tick(tick);
    }
}

} // verus!
