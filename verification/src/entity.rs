//! What every entity of the world carries: where it is, how large it is, and
//! when it comes and goes.

use crate::coord_grid::CoordGrid;
use vstd::prelude::*;

verus! {

/// Whether an entity stays, comes back after it left, or leaves for good.
#[allow(non_camel_case_types)]
#[derive(Clone, Copy, Debug, PartialEq, Eq, Hash)]
pub enum EntityLifeCycle {
    FOREVER,
    RESPAWN,
    DESPAWN,
}

/// The part that all entities have in common.
#[derive(Clone, Copy, Debug, PartialEq, Eq, Hash)]
pub struct Entity {
    pub coord: CoordGrid,
    pub width: u8,
    pub length: u8,
    pub lifecycle: EntityLifeCycle,
    pub active: bool,
    pub lifecycle_tick: u32,
    pub last_lifecycle_tick: u32,
}

impl Entity {
    /// An entity that is not active yet and whose ticks are zero.
    pub fn new(coord: CoordGrid, width: u8, length: u8, lifecycle: EntityLifeCycle) -> (entity:
        Self)
        ensures
            entity == (Entity {
                coord,
                width,
                length,
                lifecycle,
                lifecycle_tick: 0,
                last_lifecycle_tick: 0,
                active: false,
            }),
    {
        Entity {
            coord,
            width,
            length,
            lifecycle,
            lifecycle_tick: 0,
            last_lifecycle_tick: 0,
            active: false,
        }
    }

    /// Whether the entity is in its time at `tick`: always where it stays
    /// forever, after its tick where it comes back, before its tick where it
    /// leaves.
    pub open spec fn in_lifecycle(self, tick: u32) -> bool {
        match self.lifecycle {
            EntityLifeCycle::FOREVER => true,
            EntityLifeCycle::RESPAWN => self.lifecycle_tick < tick,
            EntityLifeCycle::DESPAWN => self.lifecycle_tick > tick,
        }
    }
}

/// What can be asked of every entity, and set on it.
pub trait EntityBehavior {
    /// The entity's common part.
    spec fn entity(&self) -> Entity;

    fn coord(&self) -> (coord: CoordGrid)
        ensures
            coord == self.entity().coord,
    ;

    fn width(&self) -> (width: u8)
        ensures
            width == self.entity().width,
    ;

    fn length(&self) -> (length: u8)
        ensures
            length == self.entity().length,
    ;

    fn lifecycle(&self) -> (lifecycle: EntityLifeCycle)
        ensures
            lifecycle == self.entity().lifecycle,
    ;

    fn active(&self) -> (active: bool)
        ensures
            active == self.entity().active,
    ;

    fn lifecycle_tick(&self) -> (tick: u32)
        ensures
            tick == self.entity().lifecycle_tick,
    ;

    fn last_lifecycle_tick(&self) -> (tick: u32)
        ensures
            tick == self.entity().last_lifecycle_tick,
    ;

    fn set_coord(&mut self, coord: CoordGrid)
        ensures
            final(self).entity() == (Entity { coord, ..old(self).entity() }),
    ;

    fn set_active(&mut self, active: bool)
        ensures
            final(self).entity() == (Entity { active, ..old(self).entity() }),
    ;

    fn set_lifecycle_tick(&mut self, tick: u32)
        ensures
            final(self).entity() == (Entity { lifecycle_tick: tick, ..old(self).entity() }),
    ;

    fn set_last_lifecycle_tick(&mut self, tick: u32)
        ensures
            final(self).entity() == (Entity { last_lifecycle_tick: tick, ..old(self).entity() }),
    ;

    /// Whether the entity is in its time at `tick`.
    fn check_lifecycle(&self, tick: u32) -> (holds: bool)
        ensures
            holds == self.entity().in_lifecycle(tick),
    {
        match self.lifecycle() {
            EntityLifeCycle::FOREVER => true,
            EntityLifeCycle::RESPAWN => self.lifecycle_tick() < tick,
            EntityLifeCycle::DESPAWN => self.lifecycle_tick() > tick,
        }
    }

    /// Sets the tick of the entity's coming or going and keeps the one
    /// before.
    fn set_lifecycle(&mut self, tick: u32)
        ensures
            final(self).entity() == (Entity {
                lifecycle_tick: tick,
                last_lifecycle_tick: old(self).entity().lifecycle_tick,
                ..old(self).entity()
            }),
    {
        let last: u32 = self.lifecycle_tick();
        self.set_last_lifecycle_tick(last);
        self.set_lifecycle_tick(tick);
    }
}

impl EntityBehavior for Entity {
    open spec fn entity(&self) -> Entity {
        *self
    }

    fn coord(&self) -> (coord: CoordGrid) {
        self.coord
    }

    fn width(&self) -> (width: u8) {
        self.width
    }

    fn length(&self) -> (length: u8) {
        self.length
    }

    fn lifecycle(&self) -> (lifecycle: EntityLifeCycle) {
        self.lifecycle
    }

    fn active(&self) -> (active: bool) {
        self.active
    }

    fn lifecycle_tick(&self) -> (tick: u32) {
        self.lifecycle_tick
    }

    fn last_lifecycle_tick(&self) -> (tick: u32) {
        self.last_lifecycle_tick
    }

    fn set_coord(&mut self, coord: CoordGrid) {
        self.coord = coord;
    }

    fn set_active(&mut self, active: bool) {
        self.active = active;
    }

    fn set_lifecycle_tick(&mut self, tick: u32) {
        self.lifecycle_tick = tick;
    }

    fn set_last_lifecycle_tick(&mut self, tick: u32) {
        self.last_lifecycle_tick = tick;
    }
}

/// An entity that finds its way.
#[derive(Clone, Copy, Debug, PartialEq, Eq)]
pub struct PathingEntity {
    pub entity: Entity,
    /// Whether something holds the entity up.
    pub delayed: bool,
}

impl PathingEntity {
    pub fn new(coord: CoordGrid, width: u8, length: u8, lifecycle: EntityLifeCycle) -> (pathing:
        Self)
        ensures
            pathing.entity == (Entity {
                coord,
                width,
                length,
                lifecycle,
                lifecycle_tick: 0,
                last_lifecycle_tick: 0,
                active: false,
            }),
            !pathing.delayed,
    {
        PathingEntity { entity: Entity::new(coord, width, length, lifecycle), delayed: false }
    }
}

/// An entity that stays where it is.
#[derive(Clone, Copy, Debug, PartialEq, Eq)]
pub struct NonPathingEntity {
    pub entity: Entity,
}

impl NonPathingEntity {
    pub fn new(coord: CoordGrid, width: u8, length: u8, lifecycle: EntityLifeCycle) -> (fixed:
        Self)
        ensures
            fixed.entity == (Entity {
                coord,
                width,
                length,
                lifecycle,
                lifecycle_tick: 0,
                last_lifecycle_tick: 0,
                active: false,
            }),
    {
        NonPathingEntity { entity: Entity::new(coord, width, length, lifecycle) }
    }
}

impl EntityBehavior for PathingEntity {
    open spec fn entity(&self) -> Entity {
        self.entity
    }

    fn coord(&self) -> (coord: CoordGrid) {
        self.entity.coord
    }

    fn width(&self) -> (width: u8) {
        self.entity.width
    }

    fn length(&self) -> (length: u8) {
        self.entity.length
    }

    fn lifecycle(&self) -> (lifecycle: EntityLifeCycle) {
        self.entity.lifecycle
    }

    fn active(&self) -> (active: bool) {
        self.entity.active
    }

    fn lifecycle_tick(&self) -> (tick: u32) {
        self.entity.lifecycle_tick
    }

    fn last_lifecycle_tick(&self) -> (tick: u32) {
        self.entity.last_lifecycle_tick
    }

    fn set_coord(&mut self, coord: CoordGrid) {
        self.entity.coord = coord;
    }

    fn set_active(&mut self, active: bool) {
        self.entity.active = active;
    }

    fn set_lifecycle_tick(&mut self, tick: u32) {
        self.entity.lifecycle_tick = tick;
    }

    fn set_last_lifecycle_tick(&mut self, tick: u32) {
        self.entity.last_lifecycle_tick = tick;
    }
}

impl EntityBehavior for NonPathingEntity {
    open spec fn entity(&self) -> Entity {
        self.entity
    }

    fn coord(&self) -> (coord: CoordGrid) {
        self.entity.coord
    }

    fn width(&self) -> (width: u8) {
        self.entity.width
    }

    fn length(&self) -> (length: u8) {
        self.entity.length
    }

    fn lifecycle(&self) -> (lifecycle: EntityLifeCycle) {
        self.entity.lifecycle
    }

    fn active(&self) -> (active: bool) {
        self.entity.active
    }

    fn lifecycle_tick(&self) -> (tick: u32) {
        self.entity.lifecycle_tick
    }

    fn last_lifecycle_tick(&self) -> (tick: u32) {
        self.entity.last_lifecycle_tick
    }

    fn set_coord(&mut self, coord: CoordGrid) {
        self.entity.coord = coord;
    }

    fn set_active(&mut self, active: bool) {
        self.entity.active = active;
    }

    fn set_lifecycle_tick(&mut self, tick: u32) {
        self.entity.lifecycle_tick = tick;
    }

    fn set_last_lifecycle_tick(&mut self, tick: u32) {
        self.entity.last_lifecycle_tick = tick;
    }
}

} // verus!
