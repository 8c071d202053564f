//! A fixed number of slots for entities, each entity found by an id that its
//! owner picks.

use crate::entity::EntityBehavior;
use crate::npc::NPC;
use crate::player::Player;
use std::collections::VecDeque;
use vstd::prelude::*;

verus! {

/// The mark of an id that no entity has.
pub const NO_INDEX: usize = usize::MAX;

/// Entities in slots, and for each id the slot of the entity that has it.
pub struct EntityList<T: EntityBehavior> {
    entities: Vec<Option<T>>,
    id_to_index: Vec<usize>,
    free_indices: VecDeque<usize>,
    index_padding: usize,
    last_used_index: usize,
}

impl<T: EntityBehavior> EntityList<T> {
    /// How many ids, and how many slots, the list has.
    pub closed spec fn capacity(&self) -> nat {
        self.id_to_index@.len()
    }

    /// The first id that `next` hands out once it has come to the end.
    pub closed spec fn padding(&self) -> usize {
        self.index_padding
    }

    /// The id that was set last, or zero.
    pub closed spec fn last_used(&self) -> usize {
        self.last_used_index
    }

    /// How many slots hold no entity.
    pub closed spec fn free_slots(&self) -> nat {
        self.free_indices@.len()
    }

    /// Whether an entity has the id.
    pub closed spec fn occupied(&self, id: int) -> bool {
        0 <= id < self.id_to_index@.len() && self.id_to_index@[id] != NO_INDEX
    }

    /// The entity that has the id.
    pub closed spec fn entity_at(&self, id: int) -> T {
        self.entities@[self.id_to_index@[id] as int]->Some_0
    }

    /// The ids that entities have.
    pub open spec fn used(&self) -> Set<int> {
        Set::new(|id: int| self.occupied(id))
    }

    /// The slots and the ids agree: an id in use has a slot of its own that
    /// holds an entity, the free slots hold none and are listed once each, and
    /// every slot is either free or in use.
    pub closed spec fn wf(&self) -> bool {
        &&& self.entities@.len() == self.id_to_index@.len()
        &&& self.last_used_index < self.id_to_index@.len() || self.last_used_index == 0
        &&& forall|id: int|
            0 <= id < self.id_to_index@.len() && self.id_to_index@[id] != NO_INDEX ==> {
                &&& (#[trigger] self.id_to_index@[id]) < self.entities@.len()
                &&& self.entities@[self.id_to_index@[id] as int] is Some
            }
        &&& forall|a: int, b: int|
            0 <= a < self.id_to_index@.len() && 0 <= b < self.id_to_index@.len()
                && self.id_to_index@[a] != NO_INDEX && #[trigger] self.id_to_index@[a]
                == #[trigger] self.id_to_index@[b] ==> a == b
        &&& forall|k: int|
            0 <= k < self.free_indices@.len() ==> {
                &&& (#[trigger] self.free_indices@[k]) < self.entities@.len()
                &&& self.entities@[self.free_indices@[k] as int] is None
            }
        &&& forall|j: int, k: int|
            0 <= j < k < self.free_indices@.len() ==> #[trigger] self.free_indices@[j]
                != #[trigger] self.free_indices@[k]
        &&& self.used().finite()
        &&& self.used().len() + self.free_indices@.len() == self.id_to_index@.len()
    }

    /// An id in use lies below the capacity.
    pub proof fn lemma_occupied_in_range(&self, id: int)
        requires
            self.occupied(id),
        ensures
            0 <= id < self.capacity(),
    {
    }

    /// While an id is free, a slot is free.
    pub proof fn lemma_free_id_has_free_slot(&self, id: int)
        requires
            self.wf(),
            0 <= id < self.capacity(),
            !self.occupied(id),
        ensures
            self.free_slots() >= 1,
    {
        let all = vstd::set_lib::set_int_range(0, self.capacity() as int);
        vstd::set_lib::lemma_int_range(0, self.capacity() as int);
        let others = all.remove(id);
        assert(self.used().subset_of(others));
        vstd::set_lib::lemma_len_subset(self.used(), others);
    }

    /// `self` is `before` with `value` in the place of the entity that has
    /// `id`.
    pub closed spec fn changed_at(&self, before: &Self, id: int, value: T) -> bool {
        &&& self.id_to_index == before.id_to_index
        &&& self.free_indices == before.free_indices
        &&& self.index_padding == before.index_padding
        &&& self.last_used_index == before.last_used_index
        &&& self.entities@ == before.entities@.update(
            before.id_to_index@[id] as int,
            Some(value),
        )
    }

    /// A list in which one entity was changed in its place is well formed
    /// where it was before, and has the same ids in use.
    pub proof fn lemma_changed_at(&self, before: &Self, id: int, value: T)
        requires
            before.wf(),
            before.occupied(id),
            self.changed_at(before, id, value),
        ensures
            self.wf(),
            self.same_but(before, id),
            self.occupied(id),
            self.entity_at(id) == value,
            self.last_used() == before.last_used(),
            self.free_slots() == before.free_slots(),
            forall|other: int| self.occupied(other) == before.occupied(other),
    {
        assert(self.used() =~= before.used());
    }

    /// `self` is `before` but for what the id `id` has.
    pub open spec fn same_but(&self, before: &Self, id: int) -> bool {
        &&& self.capacity() == before.capacity()
        &&& self.padding() == before.padding()
        &&& forall|other: int|
            other != id ==> self.occupied(other) == before.occupied(other) && (before.occupied(
                other,
            ) ==> self.entity_at(other) == before.entity_at(other))
    }

    /// Whether no id from `from` up to, not including, `to` is free.
    pub open spec fn all_occupied(&self, from: int, to: int) -> bool {
        forall|id: int| from <= id < to && 0 <= id < self.capacity() ==> self.occupied(id)
    }

    /// A list of `size` slots, all free.
    pub fn new(size: usize, index_padding: usize) -> (list: Self)
        ensures
            list.wf(),
            list.capacity() == size,
            list.padding() == index_padding,
            list.last_used() == 0,
            list.free_slots() == size,
            forall|id: int| !list.occupied(id),
    {
        let id_to_index: Vec<usize> = vec![NO_INDEX; size];
        let mut entities: Vec<Option<T>> = Vec::with_capacity(size);
        let mut filled: usize = 0;
        while filled < size
            invariant
                filled <= size,
                entities@.len() == filled,
                forall|i: int| 0 <= i < filled ==> entities@[i] is None,
            decreases size - filled,
        {
            entities.push(None);
            filled += 1;
        }
        let mut free_indices: VecDeque<usize> = VecDeque::with_capacity(size);
        let mut left: usize = size;
        while left > 0
            invariant
                left <= size,
                free_indices@.len() == size - left,
                forall|k: int| 0 <= k < free_indices@.len() ==> free_indices@[k] == size - 1 - k,
            decreases left,
        {
            left -= 1;
            free_indices.push_back(left);
        }
        let list = EntityList { entities, id_to_index, free_indices, index_padding, last_used_index: 0 };
        proof {
            assert(list.used() =~= Set::<int>::empty());
        }
        list
    }

    /// The first free id from `from` up to, not including, `to`.
    fn find_free(&self, from: usize, to: usize) -> (found: Option<usize>)
        requires
            self.wf(),
            to <= self.capacity(),
        ensures
            match found {
                Some(id) => from <= id < to && !self.occupied(id as int) && self.all_occupied(
                    from as int,
                    id as int,
                ),
                None => self.all_occupied(from as int, to as int),
            },
    {
        let mut id: usize = from;
        while id < to
            invariant
                from <= id,
                to <= self.id_to_index@.len(),
                self.all_occupied(from as int, id as int),
            decreases to - id,
        {
            if self.id_to_index[id] == NO_INDEX {
                return Some(id);
            }
            id += 1;
        }
        None
    }

    /// A free id: the first from `start` on, or from behind the id set last
    /// where no start is given; where there is none up to the end, the first
    /// from the padding up to the start.
    pub fn next(&self, _priority: bool, start: Option<usize>) -> (found: Result<
        usize,
        &'static str,
    >)
        requires
            self.wf(),
        ensures
            ({
                let from = match start {
                    Some(s) => s as int,
                    None => self.last_used() + 1,
                };
                let end = if from < self.capacity() {
                    from
                } else {
                    self.capacity() as int
                };
                match found {
                    Ok(id) => {
                        &&& id < self.capacity()
                        &&& !self.occupied(id as int)
                        &&& if from <= id {
                            self.all_occupied(from, id as int)
                        } else {
                            &&& self.padding() <= id
                            &&& self.all_occupied(from, self.capacity() as int)
                            &&& self.all_occupied(self.padding() as int, id as int)
                        }
                    },
                    Err(reason) => {
                        &&& found == Err::<usize, &'static str>("No space for new entities")
                        &&& self.all_occupied(from, self.capacity() as int)
                        &&& self.all_occupied(self.padding() as int, end)
                    },
                }
            }),
    {
        let len: usize = self.id_to_index.len();
        let start: usize = match start {
            Some(s) => s,
            None => self.last_used_index + 1,
        };
        if let Some(index) = self.find_free(start, len) {
            return Ok(index);
        }
        let end: usize = if start < len {
            start
        } else {
            len
        };
        if let Some(index) = self.find_free(self.index_padding, end) {
            return Ok(index);
        }
        Err("No space for new entities")
    }

    /// How many entities the list holds.
    pub fn count(&self) -> (n: usize)
        requires
            self.wf(),
        ensures
            n == self.used().len(),
            n == self.capacity() - self.free_slots(),
    {
        self.entities.len() - self.free_indices.len()
    }

    /// The entity that has `id`.
    pub fn get(&self, id: usize) -> (found: Option<&T>)
        requires
            self.wf(),
        ensures
            found is Some <==> self.occupied(id as int),
            found is Some ==> *found->Some_0 == self.entity_at(id as int),
    {
        if id >= self.id_to_index.len() {
            return None;
        }
        let index: usize = self.id_to_index[id];
        if index == NO_INDEX {
            None
        } else {
            self.entities[index].as_ref()
        }
    }

    /// The entity that has `id`, to change it.
    pub fn get_mut(&mut self, id: usize) -> (found: Option<&mut T>)
        requires
            old(self).wf(),
        ensures
            found is Some <==> old(self).occupied(id as int),
            found is None ==> *final(self) == *old(self),
            found is Some ==> {
                &&& *found->Some_0 == old(self).entity_at(id as int)
                &&& final(self).changed_at(old(self), id as int, *final(found->Some_0))
            },
    {
        if id >= self.id_to_index.len() {
            return None;
        }
        let index: usize = self.id_to_index[id];
        if index == NO_INDEX {
            None
        } else {
            self.entities[index].as_mut()
        }
    }

    /// Gives `id` to `entity`, in a free slot.
    pub fn set(&mut self, id: usize, entity: T) -> (result: Result<(), &'static str>)
        requires
            old(self).wf(),
        ensures
            final(self).wf(),
            result == if id >= old(self).capacity() {
                Err::<(), &'static str>("ID out of bounds")
            } else if old(self).occupied(id as int) {
                Err::<(), &'static str>("ID already in use")
            } else {
                Ok::<(), &'static str>(())
            },
            result is Err ==> *final(self) == *old(self),
            result is Ok ==> {
                &&& final(self).same_but(old(self), id as int)
                &&& final(self).occupied(id as int)
                &&& final(self).entity_at(id as int) == entity
                &&& final(self).last_used() == id
                &&& final(self).free_slots() == old(self).free_slots() - 1
            },
    {
        if id >= self.id_to_index.len() {
            return Err("ID out of bounds");
        }
        if self.id_to_index[id] != NO_INDEX {
            return Err("ID already in use");
        }
        proof {
            self.lemma_free_id_has_free_slot(id as int);
        }
        let index: usize = self.free_indices.pop_front().unwrap();
        assert(index == old(self).free_indices@[0]);
        assert(forall|k: int|
            0 <= k < self.free_indices@.len() ==> self.free_indices@[k] == old(
                self,
            ).free_indices@[k + 1]);
        self.entities[index] = Some(entity);
        self.id_to_index[id] = index;
        self.last_used_index = id;
        proof {
            assert(self.used() =~= old(self).used().insert(id as int));
            assert forall|a: int, b: int|
                0 <= a < self.id_to_index@.len() && 0 <= b < self.id_to_index@.len()
                    && self.id_to_index@[a] != NO_INDEX && #[trigger] self.id_to_index@[a]
                    == #[trigger] self.id_to_index@[b] implies a == b by {
                if a != b {
                    if a == id {
                        assert(old(self).id_to_index@[b] == index);
                    } else if b == id {
                        assert(old(self).id_to_index@[a] == index);
                    }
                }
            }
        }
        Ok(())
    }

    /// Takes `id` from the entity that has it and frees its slot.
    pub fn remove(&mut self, id: usize)
        requires
            old(self).wf(),
        ensures
            final(self).wf(),
            final(self).same_but(old(self), id as int),
            !final(self).occupied(id as int),
            final(self).last_used() == old(self).last_used(),
            !old(self).occupied(id as int) ==> *final(self) == *old(self),
            old(self).occupied(id as int) ==> final(self).free_slots() == old(self).free_slots()
                + 1,
    {
        if id < self.id_to_index.len() {
            let index: usize = self.id_to_index[id];
            if index != NO_INDEX {
                self.id_to_index[id] = NO_INDEX;
                self.entities[index] = None;
                self.free_indices.push_back(index);
                proof {
                    assert(self.used() =~= old(self).used().remove(id as int));
                    assert forall|j: int, k: int|
                        0 <= j < k < self.free_indices@.len() implies #[trigger] self.free_indices@[j]
                        != #[trigger] self.free_indices@[k] by {
                        if k == self.free_indices@.len() - 1 {
                            assert(old(self).free_indices@[j] == self.free_indices@[j]);
                        }
                    }
                    assert forall|other: int|
                        0 <= other < self.id_to_index@.len() && self.id_to_index@[other]
                            != NO_INDEX implies (#[trigger] self.id_to_index@[other])
                        < self.entities@.len() && self.entities@[self.id_to_index@[other] as int] is Some by {
                        assert(old(self).id_to_index@[other] != index);
                    }
                }
            }
        }
    }

    /// Frees every slot.
    pub fn reset(&mut self)
        requires
            old(self).wf(),
        ensures
            final(self).wf(),
            final(self).capacity() == old(self).capacity(),
            final(self).padding() == old(self).padding(),
            final(self).last_used() == 0,
            final(self).free_slots() == old(self).capacity(),
            forall|id: int| !final(self).occupied(id),
    {
        let size: usize = self.entities.len();
        let mut i: usize = 0;
        while i < size
            invariant
                i <= size,
                self.entities@.len() == size,
                self.id_to_index@.len() == size,
                self.index_padding == old(self).index_padding,
                forall|k: int| 0 <= k < i ==> self.entities@[k] is None,
                forall|k: int| 0 <= k < i ==> self.id_to_index@[k] == NO_INDEX,
            decreases size - i,
        {
            self.entities[i] = None;
            self.id_to_index[i] = NO_INDEX;
            i += 1;
        }
        self.free_indices.clear();
        let mut left: usize = size;
        while left > 0
            invariant
                left <= size,
                self.entities@.len() == size,
                self.id_to_index@.len() == size,
                self.index_padding == old(self).index_padding,
                forall|k: int| 0 <= k < size ==> self.entities@[k] is None,
                forall|k: int| 0 <= k < size ==> self.id_to_index@[k] == NO_INDEX,
                self.free_indices@.len() == size - left,
                forall|k: int|
                    0 <= k < self.free_indices@.len() ==> self.free_indices@[k] == size - 1 - k,
            decreases left,
        {
            left -= 1;
            self.free_indices.push_back(left);
        }
        self.last_used_index = 0;
        proof {
            assert(self.used() =~= Set::<int>::empty());
        }
    }

    /// The ids in use, in rising order, each with its entity.
    pub fn iter(&self) -> (pairs: Vec<(usize, &T)>)
        requires
            self.wf(),
        ensures
            forall|k: int|
                0 <= k < pairs@.len() ==> self.occupied(#[trigger] pairs@[k].0 as int)
                    && *pairs@[k].1 == self.entity_at(pairs@[k].0 as int),
            forall|j: int, k: int| 0 <= j < k < pairs@.len() ==> pairs@[j].0 < pairs@[k].0,
            forall|id: int|
                self.occupied(id) ==> exists|k: int| 0 <= k < pairs@.len() && pairs@[k].0 == id,
            pairs@.len() == self.used().len(),
    {
        let mut pairs: Vec<(usize, &T)> = Vec::new();
        let mut id: usize = 0;
        proof {
            assert(self.used().filter(|k: int| k < 0) =~= Set::<int>::empty());
        }
        while id < self.id_to_index.len()
            invariant
                self.wf(),
                id <= self.id_to_index@.len(),
                self.used().filter(|k: int| k < id).finite(),
                self.used().filter(|k: int| k < id).len() == pairs@.len(),
                forall|k: int|
                    0 <= k < pairs@.len() ==> self.occupied(#[trigger] pairs@[k].0 as int)
                        && *pairs@[k].1 == self.entity_at(pairs@[k].0 as int) && pairs@[k].0 < id,
                forall|j: int, k: int| 0 <= j < k < pairs@.len() ==> pairs@[j].0 < pairs@[k].0,
                forall|other: int|
                    self.occupied(other) && other < id ==> exists|k: int|
                        0 <= k < pairs@.len() && pairs@[k].0 == other,
            decreases self.id_to_index@.len() - id,
        {
            let index: usize = self.id_to_index[id];
            proof {
                let seen = self.used().filter(|k: int| k < id);
                let next = self.used().filter(|k: int| k < id + 1);
                if index != NO_INDEX {
                    assert(next =~= seen.insert(id as int));
                } else {
                    assert(next =~= seen);
                }
            }
            if index != NO_INDEX {
                if let Some(entity) = &self.entities[index] {
                    let ghost before = pairs@;
                    pairs.push((id, entity));
                    proof {
                        assert forall|other: int|
                            self.occupied(other) && other < id + 1 implies exists|k: int|
                            0 <= k < pairs@.len() && pairs@[k].0 == other by {
                            if other < id {
                                let k = choose|k: int|
                                    0 <= k < before.len() && before[k].0 == other;
                                assert(pairs@[k].0 == other);
                            } else {
                                assert(pairs@[pairs@.len() - 1].0 == other);
                            }
                        }
                    }
                }
            }
            id += 1;
        }
        proof {
            assert(self.used().filter(|k: int| k < id) =~= self.used());
        }
        pairs
    }

    /// Calls `f` on each entity, in the order of the ids.
    pub fn for_each<F>(&self, mut f: F) where F: FnMut(&T)
        requires
            self.wf(),
            forall|entity: &T| call_requires(f, (entity,)),
        ensures
            forall|id: int|
                self.occupied(id) ==> #[trigger] call_ensures(f, (&self.entity_at(id),), ()),
    {
        let ghost given = f;
        let mut id: usize = 0;
        while id < self.id_to_index.len()
            invariant
                self.wf(),
                id <= self.id_to_index@.len(),
                f == given,
                forall|entity: &T| call_requires(f, (entity,)),
                forall|k: int|
                    0 <= k < id && self.occupied(k) ==> #[trigger] call_ensures(
                        f,
                        (&self.entity_at(k),),
                        (),
                    ),
            decreases self.id_to_index@.len() - id,
        {
            let index: usize = self.id_to_index[id];
            if index != NO_INDEX {
                if let Some(entity) = &self.entities[index] {
                    f(entity);
                }
            }
            id += 1;
        }
    }

    /// Calls `f` on each entity, in the order of the ids; `f` may change it.
    /// Each entity is afterwards what `f` made of it.
    pub fn for_each_mut<F>(&mut self, mut f: F) where F: FnMut(&mut T)
        requires
            old(self).wf(),
            forall|entity: &mut T| call_requires(f, (entity,)),
        ensures
            final(self).wf(),
            final(self).capacity() == old(self).capacity(),
            final(self).padding() == old(self).padding(),
            final(self).last_used() == old(self).last_used(),
            final(self).free_slots() == old(self).free_slots(),
            forall|id: int| final(self).occupied(id) == old(self).occupied(id),
            forall|id: int|
                old(self).occupied(id) ==> exists|entity: &mut T|
                    {
                        &&& #[trigger] call_ensures(f, (entity,), ())
                        &&& *entity == old(self).entity_at(id)
                        &&& *final(entity) == final(self).entity_at(id)
                    },
    {
        let ghost given = f;
        let mut id: usize = 0;
        while id < self.id_to_index.len()
            invariant
                self.wf(),
                old(self).wf(),
                f == given,
                id <= self.id_to_index@.len(),
                self.id_to_index == old(self).id_to_index,
                self.free_indices == old(self).free_indices,
                self.index_padding == old(self).index_padding,
                self.last_used_index == old(self).last_used_index,
                forall|entity: &mut T| call_requires(f, (entity,)),
                forall|k: int|
                    0 <= k < id && old(self).occupied(k) ==> exists|entity: &mut T|
                        {
                            &&& #[trigger] call_ensures(f, (entity,), ())
                            &&& *entity == old(self).entity_at(k)
                            &&& *final(entity) == self.entity_at(k)
                        },
                forall|k: int|
                    id <= k && old(self).occupied(k) ==> self.entity_at(k) == old(self).entity_at(k),
            decreases self.id_to_index@.len() - id,
        {
            let index: usize = self.id_to_index[id];
            if index != NO_INDEX {
                let ghost before = *self;
                match self.entities[index].as_mut() {
                    Some(entity) => {
                        f(entity);
                    },
                    None => {},
                }
                proof {
                    self.lemma_changed_at(&before, id as int, self.entity_at(id as int));
                }
            }
            id += 1;
        }
    }
}

/// The list of the players: ids from one on are handed out.
pub struct PlayerList {
    list: EntityList<Player>,
}

impl View for PlayerList {
    type V = EntityList<Player>;

    closed spec fn view(&self) -> EntityList<Player> {
        self.list
    }
}

impl PlayerList {
    /// A list of `size` slots, all free, with a padding of one.
    pub fn new(size: usize) -> (list: Self)
        ensures
            list@.wf(),
            list@.capacity() == size,
            list@.padding() == 1,
            list@.last_used() == 0,
            list@.free_slots() == size,
            forall|id: int| !list@.occupied(id),
    {
        PlayerList { list: EntityList::new(size, 1) }
    }

    /// A free id, as `EntityList::next` finds it from `start` on, or from
    /// behind the id set last where no start is given. With priority the first
    /// hundred ids from the start are tried first, which finds the same id.
    pub fn next(&self, priority: bool, start: Option<usize>) -> (found: Result<
        usize,
        &'static str,
    >)
        requires
            self@.wf(),
        ensures
            ({
                let from = match start {
                    Some(s) => s as int,
                    None => self@.last_used() + 1,
                };
                let end = if from < self@.capacity() {
                    from
                } else {
                    self@.capacity() as int
                };
                match found {
                    Ok(id) => {
                        &&& id < self@.capacity()
                        &&& !self@.occupied(id as int)
                        &&& if from <= id {
                            self@.all_occupied(from, id as int)
                        } else {
                            &&& self@.padding() <= id
                            &&& self@.all_occupied(from, self@.capacity() as int)
                            &&& self@.all_occupied(self@.padding() as int, id as int)
                        }
                    },
                    Err(reason) => {
                        &&& found == Err::<usize, &'static str>("No space for new entities")
                        &&& self@.all_occupied(from, self@.capacity() as int)
                        &&& self@.all_occupied(self@.padding() as int, end)
                    },
                }
            }),
    {
        let len: usize = self.list.id_to_index.len();
        let start_index: usize = match start {
            Some(s) => s,
            None => self.list.last_used_index + 1,
        };
        if priority {
            let mut offset: usize = 0;
            while offset < 100
                invariant
                    self@.wf(),
                    len == self@.capacity(),
                    start_index == match start {
                        Some(s) => s as int,
                        None => self@.last_used() + 1,
                    },
                    offset <= 100,
                    self@.all_occupied(start_index as int, start_index + offset),
                decreases 100 - offset,
            {
                if start_index < len && offset < len - start_index {
                    let index: usize = start_index + offset;
                    if self.list.id_to_index[index] == NO_INDEX {
                        return Ok(index);
                    }
                }
                offset += 1;
            }
        }
        self.list.next(false, Some(start_index))
    }

    /// How many entities the list holds.
    pub fn count(&self) -> (n: usize)
        requires
            self@.wf(),
        ensures
            n == self@.used().len(),
            n == self@.capacity() - self@.free_slots(),
    {
        self.list.count()
    }

    /// The entity that has `id`.
    pub fn get(&self, id: usize) -> (found: Option<&Player>)
        requires
            self@.wf(),
        ensures
            found is Some <==> self@.occupied(id as int),
            found is Some ==> *found->Some_0 == self@.entity_at(id as int),
    {
        self.list.get(id)
    }

    /// The entity that has `id`, to change it.
    pub fn get_mut(&mut self, id: usize) -> (found: Option<&mut Player>)
        requires
            old(self)@.wf(),
        ensures
            found is Some <==> old(self)@.occupied(id as int),
            found is None ==> *final(self) == *old(self),
            found is Some ==> {
                &&& *found->Some_0 == old(self)@.entity_at(id as int)
                &&& final(self)@.changed_at(&old(self)@, id as int, *final(found->Some_0))
            },
    {
        self.list.get_mut(id)
    }

    /// Gives `id` to `entity`, in a free slot.
    pub fn set(&mut self, id: usize, entity: Player) -> (result: Result<(), &'static str>)
        requires
            old(self)@.wf(),
        ensures
            final(self)@.wf(),
            result == if id >= old(self)@.capacity() {
                Err::<(), &'static str>("ID out of bounds")
            } else if old(self)@.occupied(id as int) {
                Err::<(), &'static str>("ID already in use")
            } else {
                Ok::<(), &'static str>(())
            },
            result is Err ==> *final(self) == *old(self),
            result is Ok ==> {
                &&& final(self)@.same_but(&old(self)@, id as int)
                &&& final(self)@.occupied(id as int)
                &&& final(self)@.entity_at(id as int) == entity
                &&& final(self)@.last_used() == id
                &&& final(self)@.free_slots() == old(self)@.free_slots() - 1
            },
    {
        self.list.set(id, entity)
    }

    /// Takes `id` from the entity that has it and frees its slot.
    pub fn remove(&mut self, id: usize)
        requires
            old(self)@.wf(),
        ensures
            final(self)@.wf(),
            final(self)@.same_but(&old(self)@, id as int),
            !final(self)@.occupied(id as int),
            final(self)@.last_used() == old(self)@.last_used(),
            !old(self)@.occupied(id as int) ==> *final(self) == *old(self),
            old(self)@.occupied(id as int) ==> final(self)@.free_slots() == old(self)@.free_slots()
                + 1,
    {
        self.list.remove(id)
    }

    /// Frees every slot.
    pub fn reset(&mut self)
        requires
            old(self)@.wf(),
        ensures
            final(self)@.wf(),
            final(self)@.capacity() == old(self)@.capacity(),
            final(self)@.padding() == old(self)@.padding(),
            final(self)@.last_used() == 0,
            final(self)@.free_slots() == old(self)@.capacity(),
            forall|id: int| !final(self)@.occupied(id),
    {
        self.list.reset()
    }

    /// Calls `f` on each entity, in the order of the ids.
    pub fn for_each<F>(&self, f: F) where F: FnMut(&Player)
        requires
            self@.wf(),
            forall|entity: &Player| call_requires(f, (entity,)),
        ensures
            forall|id: int|
                self@.occupied(id) ==> #[trigger] call_ensures(f, (&self@.entity_at(id),), ()),
    {
        self.list.for_each(f)
    }

    /// Calls `f` on each entity, in the order of the ids; `f` may change it.
    /// Each entity is afterwards what `f` made of it.
    pub fn for_each_mut<F>(&mut self, f: F) where F: FnMut(&mut Player)
        requires
            old(self)@.wf(),
            forall|entity: &mut Player| call_requires(f, (entity,)),
        ensures
            final(self)@.wf(),
            final(self)@.capacity() == old(self)@.capacity(),
            final(self)@.padding() == old(self)@.padding(),
            final(self)@.last_used() == old(self)@.last_used(),
            final(self)@.free_slots() == old(self)@.free_slots(),
            forall|id: int| final(self)@.occupied(id) == old(self)@.occupied(id),
            forall|id: int|
                old(self)@.occupied(id) ==> exists|entity: &mut Player|
                    {
                        &&& #[trigger] call_ensures(f, (entity,), ())
                        &&& *entity == old(self)@.entity_at(id)
                        &&& *final(entity) == final(self)@.entity_at(id)
                    },
    {
        self.list.for_each_mut(f)
    }
}

/// The list of the characters that the server plays: ids from one on are handed out.
pub struct NPCList {
    list: EntityList<NPC>,
}

impl View for NPCList {
    type V = EntityList<NPC>;

    closed spec fn view(&self) -> EntityList<NPC> {
        self.list
    }
}

impl NPCList {
    /// A list of `size` slots, all free, with a padding of one.
    pub fn new(size: usize) -> (list: Self)
        ensures
            list@.wf(),
            list@.capacity() == size,
            list@.padding() == 1,
            list@.last_used() == 0,
            list@.free_slots() == size,
            forall|id: int| !list@.occupied(id),
    {
        NPCList { list: EntityList::new(size, 1) }
    }

    /// How many entities the list holds.
    pub fn count(&self) -> (n: usize)
        requires
            self@.wf(),
        ensures
            n == self@.used().len(),
            n == self@.capacity() - self@.free_slots(),
    {
        self.list.count()
    }

    /// The entity that has `id`.
    pub fn get(&self, id: usize) -> (found: Option<&NPC>)
        requires
            self@.wf(),
        ensures
            found is Some <==> self@.occupied(id as int),
            found is Some ==> *found->Some_0 == self@.entity_at(id as int),
    {
        self.list.get(id)
    }

    /// The entity that has `id`, to change it.
    pub fn get_mut(&mut self, id: usize) -> (found: Option<&mut NPC>)
        requires
            old(self)@.wf(),
        ensures
            found is Some <==> old(self)@.occupied(id as int),
            found is None ==> *final(self) == *old(self),
            found is Some ==> {
                &&& *found->Some_0 == old(self)@.entity_at(id as int)
                &&& final(self)@.changed_at(&old(self)@, id as int, *final(found->Some_0))
            },
    {
        self.list.get_mut(id)
    }

    /// Gives `id` to `entity`, in a free slot.
    pub fn set(&mut self, id: usize, entity: NPC) -> (result: Result<(), &'static str>)
        requires
            old(self)@.wf(),
        ensures
            final(self)@.wf(),
            result == if id >= old(self)@.capacity() {
                Err::<(), &'static str>("ID out of bounds")
            } else if old(self)@.occupied(id as int) {
                Err::<(), &'static str>("ID already in use")
            } else {
                Ok::<(), &'static str>(())
            },
            result is Err ==> *final(self) == *old(self),
            result is Ok ==> {
                &&& final(self)@.same_but(&old(self)@, id as int)
                &&& final(self)@.occupied(id as int)
                &&& final(self)@.entity_at(id as int) == entity
                &&& final(self)@.last_used() == id
                &&& final(self)@.free_slots() == old(self)@.free_slots() - 1
            },
    {
        self.list.set(id, entity)
    }

    /// Takes `id` from the entity that has it and frees its slot.
    pub fn remove(&mut self, id: usize)
        requires
            old(self)@.wf(),
        ensures
            final(self)@.wf(),
            final(self)@.same_but(&old(self)@, id as int),
            !final(self)@.occupied(id as int),
            final(self)@.last_used() == old(self)@.last_used(),
            !old(self)@.occupied(id as int) ==> *final(self) == *old(self),
            old(self)@.occupied(id as int) ==> final(self)@.free_slots() == old(self)@.free_slots()
                + 1,
    {
        self.list.remove(id)
    }

    /// Frees every slot.
    pub fn reset(&mut self)
        requires
            old(self)@.wf(),
        ensures
            final(self)@.wf(),
            final(self)@.capacity() == old(self)@.capacity(),
            final(self)@.padding() == old(self)@.padding(),
            final(self)@.last_used() == 0,
            final(self)@.free_slots() == old(self)@.capacity(),
            forall|id: int| !final(self)@.occupied(id),
    {
        self.list.reset()
    }

    /// Calls `f` on each entity, in the order of the ids.
    pub fn for_each<F>(&self, f: F) where F: FnMut(&NPC)
        requires
            self@.wf(),
            forall|entity: &NPC| call_requires(f, (entity,)),
        ensures
            forall|id: int|
                self@.occupied(id) ==> #[trigger] call_ensures(f, (&self@.entity_at(id),), ()),
    {
        self.list.for_each(f)
    }

    /// Calls `f` on each entity, in the order of the ids; `f` may change it.
    /// Each entity is afterwards what `f` made of it.
    pub fn for_each_mut<F>(&mut self, f: F) where F: FnMut(&mut NPC)
        requires
            old(self)@.wf(),
            forall|entity: &mut NPC| call_requires(f, (entity,)),
        ensures
            final(self)@.wf(),
            final(self)@.capacity() == old(self)@.capacity(),
            final(self)@.padding() == old(self)@.padding(),
            final(self)@.last_used() == old(self)@.last_used(),
            final(self)@.free_slots() == old(self)@.free_slots(),
            forall|id: int| final(self)@.occupied(id) == old(self)@.occupied(id),
            forall|id: int|
                old(self)@.occupied(id) ==> exists|entity: &mut NPC|
                    {
                        &&& #[trigger] call_ensures(f, (entity,), ())
                        &&& *entity == old(self)@.entity_at(id)
                        &&& *final(entity) == final(self)@.entity_at(id)
                    },
    {
        self.list.for_each_mut(f)
    }
}

} // verus!
