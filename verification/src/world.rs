//! The entity store: entities partitioned into archetype tables by the
//! exact set of component kinds they carry, and an index from each live
//! entity to its table and row.

use vstd::prelude::*;
use crate::components::{has_kind, includes};
use crate::entity::EntityId;
use crate::resources::Resources;
use crate::row::{Component, ComponentRef, Row};
use crate::systems::par_update_tables;
use crate::table::{swap_removed, Table};

verus! {

/// The state of one slot: its generation and, while an entity lives in
/// it, the table and row of that entity.
struct EntityLocation {
    generation: u32,
    table_index: usize,
    array_index: usize,
    allocated: bool,
}

/// All entities and their components.
pub struct World {
    locations: Vec<EntityLocation>,
    tables: Vec<Table>,
    free_ids: Vec<u32>,
    /// State shared by the whole frame.
    pub resources: Resources,
}

impl View for World {
    type V = Map<EntityId, Row>;

    /// The live entities, each with its components.
    open spec fn view(&self) -> Map<EntityId, Row> {
        Map::new(|e: EntityId| self.contains(e), |e: EntityId| self.row_of(e))
    }
}

impl World {
    /// The state shared by the whole frame.
    pub closed spec fn spec_resources(&self) -> Resources {
        self.resources
    }

    /// The number of slots handed out so far.
    pub closed spec fn slot_count(&self) -> nat {
        self.locations@.len()
    }

    /// The number of tables.
    pub closed spec fn table_count(&self) -> nat {
        self.tables@.len()
    }

    /// The kind mask of table `table`.
    pub closed spec fn table_mask(&self, table: int) -> u32 {
        self.tables@[table].spec_mask()
    }

    /// The entities of the rows of table `table`, in row order.
    pub closed spec fn table_entities(&self, table: int) -> Seq<EntityId> {
        self.tables@[table].entities()
    }

    /// Whether `entity` is alive.
    pub closed spec fn contains(&self, entity: EntityId) -> bool {
        &&& (entity.id as int) < self.locations@.len()
        &&& self.locations@[entity.id as int].allocated
        &&& self.locations@[entity.id as int].generation == entity.generation
    }

    /// The generation of slot `slot`: that of the entity in it, or, if the
    /// slot is empty, that of the entity it holds next.
    pub closed spec fn generation_of(&self, slot: int) -> u32 {
        self.locations@[slot].generation
    }

    /// The empty slots that can be used again. The one freed last is last.
    pub closed spec fn free_slots(&self) -> Seq<u32> {
        self.free_ids@
    }

    /// Whether `entity` was despawned: its slot has moved on to a later
    /// generation.
    pub open spec fn is_stale(&self, entity: EntityId) -> bool {
        &&& (entity.id as int) < self.slot_count()
        &&& entity.generation < self.generation_of(entity.id as int)
    }

    /// The identifier of the entity spawned after `n` others. The free
    /// slots are used first, the one freed last before the others, each at
    /// its generation; then come new slots, in order, at generation zero.
    pub open spec fn next_id(&self, n: int) -> EntityId {
        let free = self.free_slots();
        if n < free.len() {
            let slot = free[free.len() - 1 - n];
            EntityId { id: slot, generation: self.generation_of(slot as int) }
        } else {
            EntityId { id: (self.slot_count() + n - free.len()) as u32, generation: 0 }
        }
    }

    /// The free slots left after `n` entities were spawned.
    pub open spec fn free_slots_after(&self, n: int) -> Seq<u32> {
        let free = self.free_slots();
        if n < free.len() {
            free.take(free.len() - n)
        } else {
            Seq::empty()
        }
    }

    /// The number of slots after `n` entities were spawned.
    pub open spec fn slot_count_after(&self, n: int) -> int {
        let free = self.free_slots();
        if n < free.len() {
            self.slot_count() as int
        } else {
            self.slot_count() + n - free.len()
        }
    }

    /// The slots that go back on the free list when the entities of `gone`
    /// are despawned in order: all but those at the last generation but one.
    pub open spec fn released(gone: Seq<EntityId>) -> Seq<u32>
        decreases gone.len(),
    {
        if gone.len() == 0 {
            Seq::empty()
        } else {
            let head = World::released(gone.drop_last());
            if gone.last().generation + 1 < u32::MAX {
                head.push(gone.last().id)
            } else {
                head
            }
        }
    }

    /// `post` has the slots of `pre`, each at the same generation, and the
    /// same free slots.
    pub open spec fn slots_kept(pre: World, post: World) -> bool {
        &&& post.slot_count() == pre.slot_count()
        &&& post.free_slots() == pre.free_slots()
        &&& forall|slot: int|
            0 <= slot < pre.slot_count() ==> #[trigger] post.generation_of(slot)
                == pre.generation_of(slot)
    }

    /// The table that holds the row of a live entity.
    pub closed spec fn table_of(&self, entity: EntityId) -> int {
        self.locations@[entity.id as int].table_index as int
    }

    /// The entities of table `table`, or none if there is no such table.
    pub open spec fn entities_at(&self, table: int) -> Seq<EntityId> {
        if 0 <= table < self.table_count() {
            self.table_entities(table)
        } else {
            Seq::empty()
        }
    }

    /// The table whose mask is `mask`, or, if there is none, the place
    /// where it would be made: after the last table.
    pub open spec fn table_for(&self, mask: u32) -> int {
        if exists|t: int| 0 <= t < self.table_count() && self.table_mask(t) == mask {
            choose|t: int| 0 <= t < self.table_count() && self.table_mask(t) == mask
        } else {
            self.table_count() as int
        }
    }

    /// The number of tables once there is a table for `mask`.
    pub open spec fn table_count_with(&self, mask: u32) -> nat {
        if self.table_for(mask) < self.table_count() {
            self.table_count()
        } else {
            self.table_count() + 1
        }
    }

    /// `post` has the tables of `pre`, each with the same rows in the same order.
    pub open spec fn tables_same(pre: World, post: World) -> bool {
        &&& post.table_count() == pre.table_count()
        &&& forall|t: int|
            0 <= t < pre.table_count() ==> #[trigger] post.table_entities(t)
                == pre.table_entities(t)
    }

    /// `post` has the tables of `pre`. The row of `taken`, a live entity
    /// of `pre`, was taken out of its table and the last row of that table
    /// put in its place. All other rows are where they were.
    pub open spec fn row_taken(pre: World, post: World, taken: EntityId) -> bool {
        &&& post.table_count() == pre.table_count()
        &&& forall|t: int|
            0 <= t < pre.table_count() ==> #[trigger] post.table_entities(t) == if t
                == pre.table_of(taken) {
                swap_removed(pre.table_entities(t), pre.index_of(taken))
            } else {
                pre.table_entities(t)
            }
    }

    /// `post` has the tables of `pre`, and a table for `mask` if `pre` had
    /// none. The rows `added` were put at the end of the table for `mask`.
    /// If `taken` is a live entity of `pre`, its row was taken out of its
    /// table and the last row of that table put in its place. All other
    /// rows are where they were.
    pub open spec fn rows_moved(
        pre: World,
        post: World,
        taken: Option<EntityId>,
        mask: u32,
        added: Seq<EntityId>,
    ) -> bool {
        let target = pre.table_for(mask);
        &&& post.table_count() == pre.table_count_with(mask)
        &&& post.table_mask(target) == mask
        &&& forall|t: int|
            0 <= t < post.table_count() ==> #[trigger] post.table_entities(t) == {
                let kept = if taken is Some && t == pre.table_of(taken->0) {
                    swap_removed(pre.table_entities(t), pre.index_of(taken->0))
                } else {
                    pre.entities_at(t)
                };
                if t == target {
                    kept + added
                } else {
                    kept
                }
            }
    }

    /// The row, within its table, of a live entity.
    pub closed spec fn index_of(&self, entity: EntityId) -> int {
        self.locations@[entity.id as int].array_index as int
    }

    /// The components of a live entity.
    pub closed spec fn row_of(&self, entity: EntityId) -> Row {
        let location = self.locations@[entity.id as int];
        self.tables@[location.table_index as int].row(location.array_index as int)
    }

    /// Every table is well formed and no two tables have the same mask.
    spec fn tables_wf(&self) -> bool {
        &&& forall|t: int| 0 <= t < self.tables@.len() ==> (#[trigger] self.tables@[t]).wf()
        &&& forall|t: int, u: int|
            0 <= t < u < self.tables@.len() ==> (#[trigger] self.tables@[t]).spec_mask() != (
            #[trigger] self.tables@[u]).spec_mask()
    }

    /// The location of every live entity names the row that holds it.
    spec fn locations_wf(&self) -> bool {
        forall|id: int|
            0 <= id < self.locations@.len() && (#[trigger] self.locations@[id]).allocated ==> {
                let location = self.locations@[id];
                &&& location.generation < u32::MAX
                &&& location.table_index < self.tables@.len()
                &&& location.array_index < self.tables@[location.table_index as int].spec_len()
                &&& self.tables@[location.table_index as int].entities()[location.array_index as int]
                    == (EntityId { id: id as u32, generation: location.generation })
            }
    }

    /// Every row belongs to a live entity whose location names that row.
    spec fn rows_wf(&self) -> bool {
        forall|t: int, r: int|
            0 <= t < self.tables@.len() && 0 <= r < self.tables@[t].spec_len() ==> {
                let entity = #[trigger] self.tables@[t].entities()[r];
                &&& (entity.id as int) < self.locations@.len()
                &&& self.locations@[entity.id as int].allocated
                &&& self.locations@[entity.id as int].table_index == t
                &&& self.locations@[entity.id as int].array_index == r
            }
    }

    /// The free list names each reusable slot once; such a slot holds no
    /// entity and has a generation left.
    spec fn free_wf(&self) -> bool {
        &&& forall|i: int|
            0 <= i < self.free_ids@.len() ==> {
                let id = #[trigger] self.free_ids@[i];
                &&& (id as int) < self.locations@.len()
                &&& !self.locations@[id as int].allocated
                &&& self.locations@[id as int].generation < u32::MAX
            }
        &&& forall|i: int, j: int|
            0 <= i < j < self.free_ids@.len() ==> #[trigger] self.free_ids@[i]
                != #[trigger] self.free_ids@[j]
    }

    /// The store's invariant.
    pub closed spec fn wf(&self) -> bool {
        &&& self.locations@.len() <= u32::MAX
        &&& self.tables_wf()
        &&& self.locations_wf()
        &&& self.rows_wf()
        &&& self.free_wf()
    }

    /// Slot `id` is on the free list.
    spec fn is_free(&self, id: u32) -> bool {
        self.free_ids@.contains(id)
    }

    /// Slot `id` exists, holds no entity, is not on the free list, and its
    /// generation is `generation`, which is not the last one.
    spec fn is_reserved(&self, id: u32, generation: u32) -> bool {
        &&& (id as int) < self.locations@.len()
        &&& !self.locations@[id as int].allocated
        &&& self.locations@[id as int].generation == generation
        &&& generation < u32::MAX
        &&& !self.is_free(id)
    }

    /// `later` has the tables of `self` at the same places with the same masks.
    pub open spec fn tables_kept_in(&self, later: World) -> bool {
        &&& self.table_count() <= later.table_count()
        &&& forall|t: int|
            0 <= t < self.table_count() ==> #[trigger] later.table_mask(t) == self.table_mask(t)
    }

    /// A live entity's table exists and has the entity's mask.
    pub proof fn lemma_table_of(&self, entity: EntityId)
        requires
            self.wf(),
            self.contains(entity),
        ensures
            0 <= self.table_of(entity) < self.table_count(),
            self.table_mask(self.table_of(entity)) == self@[entity].mask,
            self@[entity].wf(),
    {
        let location = self.locations@[entity.id as int];
        self.tables@[location.table_index as int].lemma_row_wf(location.array_index as int);
    }

    /// A live entity is in the row that its table and index name.
    pub proof fn lemma_row_of_entity(&self, entity: EntityId)
        requires
            self.wf(),
            self.contains(entity),
        ensures
            0 <= self.table_of(entity) < self.table_count(),
            0 <= self.index_of(entity) < self.table_entities(self.table_of(entity)).len(),
            self.table_entities(self.table_of(entity))[self.index_of(entity)] == entity,
    {
    }

    /// Every row of every table belongs to a live entity, and to that row
    /// alone: no entity is in two tables or in two rows.
    pub proof fn lemma_one_row(&self, table: int, row: int)
        requires
            self.wf(),
            0 <= table < self.table_count(),
            0 <= row < self.table_entities(table).len(),
        ensures
            self.contains(self.table_entities(table)[row]),
            self.table_of(self.table_entities(table)[row]) == table,
            self.index_of(self.table_entities(table)[row]) == row,
    {
        let entity = self.tables@[table].entities()[row];
        let location = self.locations@[entity.id as int];
        assert(location.allocated);
    }

    /// Two tables with the same mask are the same table.
    pub proof fn lemma_table_masks_differ(&self, t: int, u: int)
        requires
            self.wf(),
            0 <= t < self.table_count(),
            0 <= u < self.table_count(),
            self.table_mask(t) == self.table_mask(u),
        ensures
            t == u,
    {
        if t < u {
            assert(self.tables@[t].spec_mask() != self.tables@[u].spec_mask());
        } else if u < t {
            assert(self.tables@[u].spec_mask() != self.tables@[t].spec_mask());
        }
    }

    /// A stale identifier names no live entity.
    pub proof fn lemma_stale_is_dead(&self, entity: EntityId)
        requires
            self.is_stale(entity),
        ensures
            !self.contains(entity),
    {
    }

    /// The first entity, in table order from table `from` on, of a
    /// non-empty table whose mask includes `mask`.
    pub open spec fn first_match_from(&self, mask: u32, from: int) -> Option<EntityId>
        decreases self.table_count() - from,
    {
        if from < 0 || from >= self.table_count() {
            None
        } else if includes(self.table_mask(from), mask) && self.table_entities(from).len() > 0 {
            Some(self.table_entities(from)[0])
        } else {
            self.first_match_from(mask, from + 1)
        }
    }

    /// The entity that a query for `mask` finds first: the first row of the
    /// first table that has a row and whose mask includes `mask`.
    pub open spec fn first_match(&self, mask: u32) -> Option<EntityId> {
        self.first_match_from(mask, 0)
    }

    /// The entities of `entities` that are alive in `pre`, each at its first
    /// place in the sequence.
    pub open spec fn live_once(pre: World, entities: Seq<EntityId>) -> Seq<EntityId>
        decreases entities.len(),
    {
        if entities.len() == 0 {
            Seq::empty()
        } else {
            let head = World::live_once(pre, entities.drop_last());
            let entity = entities.last();
            if pre.contains(entity) && !entities.drop_last().contains(entity) {
                head.push(entity)
            } else {
                head
            }
        }
    }

    /// `post` is `pre` after every live entity of `entities` was despawned.
    pub open spec fn despawned_all(pre: World, post: World, entities: Seq<EntityId>) -> bool {
        &&& post.wf()
        &&& forall|e: EntityId|
            #[trigger] post.contains(e) == (pre.contains(e) && !entities.contains(e))
        &&& forall|e: EntityId| post.contains(e) ==> #[trigger] post.row_of(e) == pre.row_of(e)
        &&& forall|e: EntityId| post.contains(e) ==> #[trigger] post.table_of(e) == pre.table_of(e)
        &&& forall|e: EntityId|
            #[trigger] post.is_stale(e) == (pre.is_stale(e) || (pre.contains(e)
                && entities.contains(e)))
        &&& pre.tables_kept_in(post)
        &&& post.slot_count() == pre.slot_count()
        &&& forall|slot: int|
            0 <= slot < pre.slot_count() ==> #[trigger] post.generation_of(slot) == {
                let held = EntityId { id: slot as u32, generation: pre.generation_of(slot) };
                held.generation + if pre.contains(held) && entities.contains(held) {
                    1int
                } else {
                    0int
                }
            }
        &&& post.free_slots() == pre.free_slots() + World::released(
            World::live_once(pre, entities),
        )
        &&& post.spec_resources() == pre.spec_resources()
    }

    /// From table `from` on, a query finds a live entity whose kinds
    /// include those asked for, or no such table has a row.
    proof fn lemma_first_match_scan(&self, mask: u32, from: int)
        requires
            self.wf(),
            0 <= from <= self.tables@.len(),
        ensures
            self.first_match_from(mask, from) matches Some(e) ==> self.contains(e) && includes(
                self.row_of(e).mask,
                mask,
            ),
            self.first_match_from(mask, from) is None ==> forall|u: int|
                from <= u < self.tables@.len() ==> !(includes(
                    (#[trigger] self.tables@[u]).spec_mask(),
                    mask,
                ) && self.tables@[u].spec_len() > 0),
        decreases self.tables@.len() - from,
    {
        if from < self.tables@.len() {
            if includes(self.tables@[from].spec_mask(), mask) && self.tables@[from].spec_len()
                > 0 {
                let e = self.tables@[from].entities()[0];
                assert(self.contains(e));
                self.lemma_table_of(e);
            } else {
                self.lemma_first_match_scan(mask, from + 1);
            }
        }
    }

    /// What a query finds is alive and carries the kinds asked for, and it
    /// finds something whenever such an entity exists.
    pub proof fn lemma_first_match(&self, mask: u32)
        requires
            self.wf(),
        ensures
            self.first_match(mask) matches Some(e) ==> self.contains(e) && includes(
                self.row_of(e).mask,
                mask,
            ),
            self.first_match(mask) is None ==> forall|e: EntityId| #[trigger]
                self.contains(e) ==> !includes(self.row_of(e).mask, mask),
    {
        self.lemma_first_match_scan(mask, 0);
        if self.first_match(mask) is None {
            assert forall|e: EntityId| #[trigger] self.contains(e) implies !includes(
                self.row_of(e).mask,
                mask,
            ) by {
                self.lemma_table_of(e);
                let location = self.locations@[e.id as int];
                assert(location.allocated);
                assert(self.tables@[location.table_index as int].spec_len() > 0);
            }
        }
    }

    /// An empty store.
    pub fn new() -> (world: World)
        ensures
            world.wf(),
            world@ == Map::<EntityId, Row>::empty(),
            world.slot_count() == 0,
            world.table_count() == 0,
            world.free_slots() == Seq::<u32>::empty(),
            forall|e: EntityId| !world.contains(e) && !world.is_stale(e),
            world.spec_resources().is_initial(),
    {
        let world = World {
            locations: Vec::new(),
            tables: Vec::new(),
            free_ids: Vec::new(),
            resources: Resources::default(),
        };
        assert(world@ =~= Map::<EntityId, Row>::empty());
        assert(world.free_slots() =~= Seq::<u32>::empty());
        world
    }

    /// The state shared by the whole frame.
    pub fn resources(&self) -> (resources: &Resources)
        ensures
            *resources == self.spec_resources(),
    {
        &self.resources
    }

    /// The table and row of `entity`, if it is alive.
    fn location(&self, entity: EntityId) -> (found: Option<(usize, usize)>)
        requires
            self.wf(),
        ensures
            found is Some == self.contains(entity),
            found matches Some((t, r)) ==> {
                &&& t == self.locations@[entity.id as int].table_index
                &&& r == self.locations@[entity.id as int].array_index
                &&& t < self.tables@.len()
                &&& r < self.tables@[t as int].spec_len()
                &&& self.tables@[t as int].entities()[r as int] == entity
            },
    {
        let id = entity.id as usize;
        if id >= self.locations.len() {
            return None;
        }
        let location = &self.locations[id];
        if !location.allocated || location.generation != entity.generation {
            return None;
        }
        Some((location.table_index, location.array_index))
    }

    /// The table whose mask is `mask`, if there is one.
    fn find_table(&self, mask: u32) -> (found: Option<usize>)
        requires
            self.wf(),
        ensures
            found matches Some(t) ==> t < self.tables@.len() && self.tables@[t as int].spec_mask()
                == mask,
            found is None ==> forall|t: int|
                0 <= t < self.tables@.len() ==> (#[trigger] self.tables@[t]).spec_mask() != mask,
            self.table_for(mask) == match found {
                Some(t) => t as int,
                None => self.tables@.len() as int,
            },
    {
        let mut t: usize = 0;
        while t < self.tables.len()
            invariant
                self.wf(),
                t <= self.tables@.len(),
                forall|u: int| 0 <= u < t ==> (#[trigger] self.tables@[u]).spec_mask() != mask,
            decreases self.tables@.len() - t,
        {
            if self.tables[t].mask() == mask {
                proof {
                    assert(self.table_mask(t as int) == mask);
                    self.lemma_table_masks_differ(self.table_for(mask), t as int);
                }
                return Some(t);
            }
            t += 1;
        }
        proof {
            if exists|u: int| 0 <= u < self.table_count() && self.table_mask(u) == mask {
                let u = choose|u: int| 0 <= u < self.table_count() && self.table_mask(u) == mask;
                assert(self.tables@[u].spec_mask() == mask);
            }
        }
        None
    }

    /// The table whose mask is `mask`, created at the end if there is none.
    fn get_or_create_table(&mut self, mask: u32) -> (t: usize)
        requires
            old(self).wf(),
        ensures
            final(self).wf(),
            final(self).resources == old(self).resources,
            t < final(self).tables@.len(),
            final(self).tables@[t as int].spec_mask() == mask,
            final(self).locations@ == old(self).locations@,
            final(self).free_ids@ == old(self).free_ids@,
            old(self).tables@.len() <= final(self).tables@.len(),
            forall|u: int|
                0 <= u < old(self).tables@.len() ==> #[trigger] final(self).tables@[u] == old(self).tables@[u],
            t == old(self).table_for(mask),
            final(self).tables@.len() == old(self).table_count_with(mask),
            t >= old(self).tables@.len() ==> final(self).tables@[t as int].entities()
                == Seq::<EntityId>::empty(),
    {
        match self.find_table(mask) {
            Some(t) => t,
            None => {
                let t = self.tables.len();
                self.tables.push(Table::new(mask));
                assert(self.tables@[t as int].spec_len() == 0);
                assert(self.tables@[t as int].entities() =~= Seq::<EntityId>::empty());
                assert(self.tables_wf());
                assert(self.locations_wf());
                assert(self.rows_wf());
                t
            },
        }
    }

    /// Takes the row of the live entity at row `r` of table `t` out of its
    /// table. The slot keeps its generation and holds no entity afterwards.
    fn detach(&mut self, entity: EntityId, t: usize, r: usize) -> (row: Row)
        requires
            old(self).wf(),
            old(self).contains(entity),
            t == old(self).locations@[entity.id as int].table_index,
            r == old(self).locations@[entity.id as int].array_index,
        ensures
            final(self).wf(),
            final(self).resources == old(self).resources,
            final(self).is_reserved(entity.id, entity.generation),
            row == old(self).row_of(entity),
            final(self)@ == old(self)@.remove(entity),
            final(self).locations@.len() == old(self).locations@.len(),
            forall|id: int|
                0 <= id < old(self).locations@.len() ==> (#[trigger] final(self).locations@[id]).generation
                    == old(self).locations@[id].generation,
            forall|id: int|
                0 <= id < old(self).locations@.len() && id != entity.id ==> (#[trigger] final(self).locations@[id]).allocated == old(self).locations@[id].allocated && final(self).locations@[id].table_index == old(self).locations@[id].table_index,
            final(self).free_ids@ == old(self).free_ids@,
            final(self).tables@.len() == old(self).tables@.len(),
            forall|u: int|
                0 <= u < old(self).tables@.len() ==> (#[trigger] final(self).tables@[u]).spec_mask()
                    == old(self).tables@[u].spec_mask(),
            World::row_taken(*old(self), *final(self), entity),
    {
        let ghost before = *self;
        let row = self.tables[t].swap_remove_row(r);
        if r < self.tables[t].len() {
            let moved = self.tables[t].entity_at(r);
            assert(moved == before.tables@[t as int].entities()[before.tables@[t as int].spec_len() - 1]);
            self.locations[moved.id as usize].array_index = r;
        }
        self.locations[entity.id as usize].allocated = false;
        proof {
            let last = before.tables@[t as int].spec_len() - 1;
            assert(self.tables_wf());
            assert forall|u: int, s: int|
                0 <= u < self.tables@.len() && 0 <= s < self.tables@[u].spec_len() implies {
                let e = #[trigger] self.tables@[u].entities()[s];
                &&& (e.id as int) < self.locations@.len()
                &&& self.locations@[e.id as int].allocated
                &&& self.locations@[e.id as int].table_index == u
                &&& self.locations@[e.id as int].array_index == s
            } by {
                if u == t {
                    if s == r {
                        let e = before.tables@[u].entities()[last];
                        assert(self.tables@[u].entities()[s] == e);
                    } else {
                        let e = before.tables@[u].entities()[s];
                        assert(self.tables@[u].entities()[s] == e);
                    }
                } else {
                    let e = before.tables@[u].entities()[s];
                    assert(self.tables@[u].entities()[s] == e);
                }
            }
            assert(self.rows_wf());
            assert forall|id: int|
                0 <= id < self.locations@.len() && (#[trigger] self.locations@[id]).allocated implies {
                let location = self.locations@[id];
                &&& location.generation < u32::MAX
                &&& location.table_index < self.tables@.len()
                &&& location.array_index < self.tables@[location.table_index as int].spec_len()
                &&& self.tables@[location.table_index as int].entities()[location.array_index as int]
                    == (EntityId { id: id as u32, generation: location.generation })
            } by {
                let old_location = before.locations@[id];
                assert(old_location.allocated);
                let e = before.tables@[old_location.table_index as int].entities()[old_location.array_index as int];
            }
            assert(self.locations_wf());
            assert(self.free_wf());
            assert forall|e: EntityId| self.contains(e) implies self.row_of(e) == before.row_of(
                e,
            ) by {
                let old_location = before.locations@[e.id as int];
                assert(old_location.allocated);
                let x = before.tables@[old_location.table_index as int].entities()[old_location.array_index as int];
            }
            assert(self@ =~= before@.remove(entity));
            assert(!self.is_free(entity.id)) by {
                if self.free_ids@.contains(entity.id) {
                    let i = choose|i: int|
                        0 <= i < self.free_ids@.len() && self.free_ids@[i] == entity.id;
                    assert(!before.locations@[before.free_ids@[i] as int].allocated);
                }
            }
        }
        row
    }

    /// Appends a row for `entity` to table `t` and points its slot there.
    fn attach(&mut self, entity: EntityId, t: usize, row: Row)
        requires
            old(self).wf(),
            old(self).is_reserved(entity.id, entity.generation),
            t < old(self).tables@.len(),
        ensures
            final(self).wf(),
            final(self).resources == old(self).resources,
            final(self).contains(entity),
            final(self).table_of(entity) == t,
            final(self).row_of(entity).is_moved_from(row, old(self).tables@[t as int].spec_mask()),
            final(self)@ == old(self)@.insert(entity, final(self).row_of(entity)),
            final(self).locations@.len() == old(self).locations@.len(),
            forall|id: int|
                0 <= id < old(self).locations@.len() ==> (#[trigger] final(self).locations@[id]).generation
                    == old(self).locations@[id].generation,
            forall|id: int|
                0 <= id < old(self).locations@.len() && id != entity.id ==> (#[trigger] final(self).locations@[id]).allocated
                    == old(self).locations@[id].allocated && final(self).locations@[id].table_index
                    == old(self).locations@[id].table_index,
            final(self).free_ids@ == old(self).free_ids@,
            final(self).tables@.len() == old(self).tables@.len(),
            forall|u: int|
                0 <= u < old(self).tables@.len() ==> (#[trigger] final(self).tables@[u]).spec_mask()
                    == old(self).tables@[u].spec_mask(),
            forall|u: int|
                0 <= u < old(self).tables@.len() ==> #[trigger] final(self).table_entities(u) == if u
                    == t {
                    old(self).table_entities(u).push(entity)
                } else {
                    old(self).table_entities(u)
                },
    {
        let ghost before = *self;
        let index = self.tables[t].len();
        self.tables[t].push_row(entity, row);
        self.locations[entity.id as usize] = EntityLocation {
            generation: entity.generation,
            table_index: t,
            array_index: index,
            allocated: true,
        };
        proof {
            assert(self.tables_wf());
            assert forall|u: int, s: int|
                0 <= u < self.tables@.len() && 0 <= s < self.tables@[u].spec_len() implies {
                let e = #[trigger] self.tables@[u].entities()[s];
                &&& (e.id as int) < self.locations@.len()
                &&& self.locations@[e.id as int].allocated
                &&& self.locations@[e.id as int].table_index == u
                &&& self.locations@[e.id as int].array_index == s
            } by {
                if u == t && s == index {
                } else {
                    let e = before.tables@[u].entities()[s];
                    assert(self.tables@[u].entities()[s] == e);
                }
            }
            assert(self.rows_wf());
            assert forall|id: int|
                0 <= id < self.locations@.len() && (#[trigger] self.locations@[id]).allocated implies {
                let location = self.locations@[id];
                &&& location.generation < u32::MAX
                &&& location.table_index < self.tables@.len()
                &&& location.array_index < self.tables@[location.table_index as int].spec_len()
                &&& self.tables@[location.table_index as int].entities()[location.array_index as int]
                    == (EntityId { id: id as u32, generation: location.generation })
            } by {
                if id != entity.id {
                    let old_location = before.locations@[id];
                    assert(old_location.allocated);
                }
            }
            assert(self.locations_wf());
            assert forall|i: int| 0 <= i < self.free_ids@.len() implies {
                let id = #[trigger] self.free_ids@[i];
                &&& (id as int) < self.locations@.len()
                &&& !self.locations@[id as int].allocated
                &&& self.locations@[id as int].generation < u32::MAX
            } by {
                assert(before.free_ids@.contains(before.free_ids@[i]));
            }
            assert(self.free_wf());
            assert forall|e: EntityId| before.contains(e) implies self.row_of(e) == before.row_of(
                e,
            ) by {
                let old_location = before.locations@[e.id as int];
                assert(old_location.allocated);
            }
            assert(self@ =~= before@.insert(entity, self.row_of(entity)));
        }
    }

    /// Picks the slot of the next entity: the slot freed last, else a new
    /// one. The slot is taken off the free list and holds no entity yet.
    fn reserve_slot(&mut self) -> (entity: EntityId)
        requires
            old(self).wf(),
            old(self).free_ids@.len() > 0 || old(self).locations@.len() < u32::MAX,
        ensures
            final(self).wf(),
            final(self).resources == old(self).resources,
            final(self).is_reserved(entity.id, entity.generation),
            !old(self).contains(entity),
            !old(self).is_stale(entity),
            final(self)@ == old(self)@,
            final(self).tables@ == old(self).tables@,
            old(self).locations@.len() <= final(self).locations@.len() <= old(self).locations@.len()
                + 1,
            forall|id: int|
                0 <= id < old(self).locations@.len() ==> #[trigger] final(self).locations@[id]
                    == old(self).locations@[id],
            forall|e: EntityId| #[trigger] final(self).is_stale(e) == old(self).is_stale(e),
            entity == old(self).next_id(0),
            final(self).free_ids@ == old(self).free_slots_after(1),
            final(self).locations@.len() == old(self).slot_count_after(1),
            final(self).locations@.len() > old(self).locations@.len() ==> final(self).locations@.last().generation == 0,
    {
        let ghost before = *self;
        match self.free_ids.pop() {
            Some(id) => {
                let entity = EntityId { id, generation: self.locations[id as usize].generation };
                proof {
                    let last = before.free_ids@.len() - 1;
                    assert(before.free_ids@[last] == id);
                    assert(!self.is_free(id)) by {
                        if self.free_ids@.contains(id) {
                            let i = choose|i: int|
                                0 <= i < self.free_ids@.len() && self.free_ids@[i] == id;
                            assert(before.free_ids@[i] != before.free_ids@[last]);
                        }
                    }
                    assert forall|i: int| 0 <= i < self.free_ids@.len() implies {
                        let id = #[trigger] self.free_ids@[i];
                        &&& (id as int) < self.locations@.len()
                        &&& !self.locations@[id as int].allocated
                        &&& self.locations@[id as int].generation < u32::MAX
                    } by {
                        assert(self.free_ids@[i] == before.free_ids@[i]);
                    }
                    assert forall|i: int, j: int|
                        0 <= i < j < self.free_ids@.len() implies #[trigger] self.free_ids@[i]
                        != #[trigger] self.free_ids@[j] by {
                        assert(self.free_ids@[i] == before.free_ids@[i]);
                        assert(self.free_ids@[j] == before.free_ids@[j]);
                    }
                    assert(self.free_wf());
                    assert(self@ =~= before@);
                }
                entity
            },
            None => {
                let id = self.locations.len() as u32;
                self.locations.push(
                    EntityLocation {
                        generation: 0,
                        table_index: 0,
                        array_index: 0,
                        allocated: false,
                    },
                );
                proof {
                    assert(self.free_ids@.len() == 0);
                    assert(self.locations_wf());
                    assert(self.rows_wf());
                    assert(self@ =~= before@);
                }
                EntityId { id, generation: 0 }
            },
        }
    }

    /// Moves an empty slot on to its next generation. The slot goes back on
    /// the free list unless that generation is the last one.
    fn retire(&mut self, entity: EntityId)
        requires
            old(self).wf(),
            old(self).is_reserved(entity.id, entity.generation),
        ensures
            final(self).wf(),
            final(self).resources == old(self).resources,
            final(self)@ == old(self)@,
            final(self).tables@ == old(self).tables@,
            final(self).locations@.len() == old(self).locations@.len(),
            forall|id: int|
                0 <= id < old(self).locations@.len() && id != entity.id
                    ==> #[trigger] final(self).locations@[id] == old(self).locations@[id],
            forall|e: EntityId|
                #[trigger] final(self).is_stale(e) == (old(self).is_stale(e) || e == entity),
            final(self).locations@[entity.id as int].generation == entity.generation + 1,
            final(self).free_ids@ == if entity.generation + 1 < u32::MAX {
                old(self).free_ids@.push(entity.id)
            } else {
                old(self).free_ids@
            },
    {
        let ghost before = *self;
        let generation = entity.generation + 1;
        self.locations[entity.id as usize].generation = generation;
        if generation < u32::MAX {
            self.free_ids.push(entity.id);
        }
        proof {
            assert(self.locations_wf());
            assert(self.rows_wf());
            assert forall|i: int| 0 <= i < self.free_ids@.len() implies {
                let id = #[trigger] self.free_ids@[i];
                &&& (id as int) < self.locations@.len()
                &&& !self.locations@[id as int].allocated
                &&& self.locations@[id as int].generation < u32::MAX
            } by {
                if i < before.free_ids@.len() {
                    assert(self.free_ids@[i] == before.free_ids@[i]);
                    assert(before.free_ids@.contains(before.free_ids@[i]));
                }
            }
            assert forall|i: int, j: int|
                0 <= i < j < self.free_ids@.len() implies #[trigger] self.free_ids@[i]
                != #[trigger] self.free_ids@[j] by {
                assert(self.free_ids@[i] == before.free_ids@[i]);
                assert(before.free_ids@.contains(before.free_ids@[i]));
                if j < before.free_ids@.len() {
                    assert(self.free_ids@[j] == before.free_ids@[j]);
                }
            }
            assert(self.free_wf());
            assert(self@ =~= before@);
        }
    }

    /// Stores `value` in the row of a live entity whose table has the column.
    fn store(&mut self, entity: EntityId, t: usize, r: usize, value: Component)
        requires
            old(self).wf(),
            old(self).contains(entity),
            t == old(self).locations@[entity.id as int].table_index,
            r == old(self).locations@[entity.id as int].array_index,
            has_kind(old(self).row_of(entity).mask, value.spec_kind()),
        ensures
            final(self).wf(),
            final(self).resources == old(self).resources,
            World::others_kept(*old(self), *final(self), entity),
            final(self).contains(entity),
            final(self).row_of(entity) == old(self).row_of(entity).with(value),
            final(self).is_stale(entity) == old(self).is_stale(entity),
            World::slots_kept(*old(self), *final(self)),
            World::tables_same(*old(self), *final(self)),
    {
        let ghost before = *self;
        proof {
            self.lemma_table_of(entity);
        }
        self.tables[t].set(r, value);
        proof {
            assert(self.tables_wf());
            assert forall|u: int, s: int|
                0 <= u < self.tables@.len() && 0 <= s < self.tables@[u].spec_len() implies {
                let e = #[trigger] self.tables@[u].entities()[s];
                &&& (e.id as int) < self.locations@.len()
                &&& self.locations@[e.id as int].allocated
                &&& self.locations@[e.id as int].table_index == u
                &&& self.locations@[e.id as int].array_index == s
            } by {
                let e = before.tables@[u].entities()[s];
            }
            assert(self.rows_wf());
            assert(self.locations_wf());
            assert forall|e: EntityId| e != entity && before.contains(e) implies #[trigger] self.row_of(e)
                == before.row_of(e) by {
                let location = before.locations@[e.id as int];
                assert(location.allocated);
                let x = before.tables@[location.table_index as int].entities()[location.array_index as int];
            }
        }
    }

    /// Everything about the entities other than `entity` is in `post` as it
    /// was in `pre`, and the tables of `pre` are still in place.
    pub open spec fn others_kept(pre: World, post: World, entity: EntityId) -> bool {
        &&& forall|e: EntityId| e != entity ==> #[trigger] post.contains(e) == pre.contains(e)
        &&& forall|e: EntityId|
            e != entity && pre.contains(e) ==> #[trigger] post.row_of(e) == pre.row_of(e)
        &&& forall|e: EntityId|
            e != entity && pre.contains(e) ==> #[trigger] post.table_of(e) == pre.table_of(e)
        &&& forall|e: EntityId| #[trigger] post.is_stale(e) == (pre.is_stale(e) || (e == entity
            && post.is_stale(entity)))
        &&& forall|slot: int|
            0 <= slot < pre.slot_count() && slot != entity.id ==> #[trigger] post.generation_of(
                slot,
            ) == pre.generation_of(slot)
        &&& pre.tables_kept_in(post)
        &&& post.slot_count() >= pre.slot_count()
        &&& post.spec_resources() == pre.spec_resources()
    }

    /// `post` is `pre` after `ids` were spawned with the kinds in `mask`:
    /// the identifiers are new and distinct, each names a live entity whose
    /// components are the defaults of those kinds, and nothing else changed.
    pub open spec fn spawned(pre: World, post: World, mask: u32, ids: Seq<EntityId>) -> bool {
        &&& post.wf()
        &&& ids.no_duplicates()
        &&& forall|i: int|
            0 <= i < ids.len() ==> !pre.contains(#[trigger] ids[i]) && !pre.is_stale(ids[i])
        &&& forall|e: EntityId| #[trigger] post.contains(e) == (pre.contains(e) || ids.contains(e))
        &&& forall|e: EntityId| pre.contains(e) ==> #[trigger] post.row_of(e) == pre.row_of(e)
        &&& forall|e: EntityId| pre.contains(e) ==> #[trigger] post.table_of(e) == pre.table_of(e)
        &&& forall|i: int| 0 <= i < ids.len() ==> post.row_of(#[trigger] ids[i]).is_fresh(mask)
        &&& forall|e: EntityId| #[trigger] post.is_stale(e) == pre.is_stale(e)
        &&& pre.tables_kept_in(post)
        &&& World::rows_moved(pre, post, None, mask, ids)
        &&& forall|i: int| 0 <= i < ids.len() ==> #[trigger] ids[i] == pre.next_id(i)
        &&& post.free_slots() == pre.free_slots_after(ids.len() as int)
        &&& post.slot_count() == pre.slot_count_after(ids.len() as int)
        &&& forall|slot: int|
            0 <= slot < post.slot_count() ==> #[trigger] post.generation_of(slot) == if slot
                < pre.slot_count() {
                pre.generation_of(slot)
            } else {
                0
            }
        &&& post.spec_resources() == pre.spec_resources()
    }

    /// `post` is `pre` after `entity` was despawned: if it was alive it is
    /// now stale and its row is gone; nothing else changed.
    pub open spec fn despawned(pre: World, post: World, entity: EntityId) -> bool {
        &&& post.wf()
        &&& World::others_kept(pre, post, entity)
        &&& !post.contains(entity)
        &&& post.is_stale(entity) == (pre.is_stale(entity) || pre.contains(entity))
        &&& post.slot_count() == pre.slot_count()
        &&& pre.contains(entity) ==> post.generation_of(entity.id as int) == entity.generation + 1
        &&& post.free_slots() == if pre.contains(entity) && entity.generation + 1 < u32::MAX {
            pre.free_slots().push(entity.id)
        } else {
            pre.free_slots()
        }
        &&& !pre.contains(entity) ==> World::slots_kept(pre, post)
        &&& if pre.contains(entity) {
            World::row_taken(pre, post, entity)
        } else {
            World::tables_same(pre, post)
        }
    }

    /// `post` is `pre` after the row of `entity`, if it is alive, was
    /// rebuilt from `source` for the kinds in `mask`; nothing else changed.
    pub open spec fn retyped(
        pre: World,
        post: World,
        entity: EntityId,
        source: Row,
        mask: u32,
    ) -> bool {
        &&& post.wf()
        &&& World::others_kept(pre, post, entity)
        &&& post.contains(entity) == pre.contains(entity)
        &&& pre.contains(entity) ==> post.row_of(entity).is_moved_from(source, mask)
        &&& post.is_stale(entity) == pre.is_stale(entity)
        &&& World::slots_kept(pre, post)
        &&& if pre.contains(entity) && mask != pre.row_of(entity).mask {
            World::rows_moved(pre, post, Some(entity), mask, seq![entity])
        } else {
            World::tables_same(pre, post)
        }
    }

    /// `post` has the entities of `pre`, each with the components and in
    /// the table it had, and the same stale identifiers, tables and
    /// resources.
    pub open spec fn same_entities(pre: World, post: World) -> bool {
        &&& post.wf()
        &&& forall|e: EntityId| #[trigger] post.contains(e) == pre.contains(e)
        &&& forall|e: EntityId| pre.contains(e) ==> #[trigger] post.row_of(e) == pre.row_of(e)
        &&& forall|e: EntityId| pre.contains(e) ==> #[trigger] post.table_of(e) == pre.table_of(e)
        &&& forall|e: EntityId| #[trigger] post.is_stale(e) == pre.is_stale(e)
        &&& forall|mask: u32| #[trigger] post.first_match(mask) == pre.first_match(mask)
        &&& pre.tables_kept_in(post)
        &&& World::tables_same(pre, post)
        &&& World::slots_kept(pre, post)
        &&& post.spec_resources() == pre.spec_resources()
    }

    /// Hands every table to the systems for one tick.
    pub(crate) fn update_tables(&mut self, delta_time: u32)
        requires
            old(self).wf(),
        ensures
            World::same_entities(*old(self), *final(self)),
    {
        let ghost before = *self;
        par_update_tables(&mut self.tables, delta_time);
        proof {
            assert(self.tables@ =~= before.tables@);
            assert forall|mask: u32| #[trigger] self.first_match(mask) == before.first_match(
                mask,
            ) by {
                self.lemma_first_match_from(before, mask, 0);
            }
        }
    }

    /// What a query finds depends on the tables alone.
    proof fn lemma_first_match_from(&self, other: World, mask: u32, from: int)
        requires
            self.tables@ == other.tables@,
        ensures
            self.first_match_from(mask, from) == other.first_match_from(mask, from),
        decreases self.tables@.len() - from,
    {
        if 0 <= from < self.tables@.len() {
            self.lemma_first_match_from(other, mask, from + 1);
        }
    }

    /// `post` is `pre` after the entities of `entities` were despawned one
    /// after the other, in order.
    pub open spec fn despawned_in_turn(pre: World, post: World, entities: Seq<EntityId>) -> bool
        decreases entities.len(),
    {
        if entities.len() == 0 {
            World::same_entities(pre, post)
        } else {
            exists|between: World|
                {
                    &&& World::despawned_in_turn(pre, between, entities.drop_last())
                    &&& #[trigger] World::despawned(between, post, entities.last())
                }
        }
    }

    /// One more despawn extends a run of despawns.
    proof fn lemma_despawned_next(
        pre: World,
        between: World,
        post: World,
        entities: Seq<EntityId>,
    )
        requires
            entities.len() > 0,
            World::despawned_in_turn(pre, between, entities.drop_last()),
            World::despawned(between, post, entities.last()),
        ensures
            World::despawned_in_turn(pre, post, entities),
    {
    }

    /// Moves the row of a live entity to the table for `mask`.
    fn move_entity(&mut self, entity: EntityId, t: usize, r: usize, mask: u32)
        requires
            old(self).wf(),
            old(self).contains(entity),
            t == old(self).locations@[entity.id as int].table_index,
            r == old(self).locations@[entity.id as int].array_index,
            mask != old(self).row_of(entity).mask,
        ensures
            World::retyped(*old(self), *final(self), entity, old(self).row_of(entity), mask),
    {
        let ghost before = *self;
        let target = self.get_or_create_table(mask);
        let ghost created = *self;
        assert(created.row_of(entity) == before.row_of(entity));
        assert forall|e: EntityId| before.contains(e) implies created.row_of(e) == before.row_of(
            e,
        ) by {
            let location = before.locations@[e.id as int];
            assert(location.allocated);
        }
        let row = self.detach(entity, t, r);
        let ghost detached = *self;
        self.attach(entity, target, row);
        proof {
            assert forall|e: EntityId| e != entity && before.contains(e) implies #[trigger] self.row_of(e)
                == before.row_of(e) by {
                assert(created.contains(e));
                assert(created@[e] == created.row_of(e));
                assert(detached@.contains_key(e));
                assert(detached@[e] == created@[e]);
                assert(self@[e] == detached@[e]);
                assert(self@.contains_key(e));
            }
            assert forall|e: EntityId| e != entity implies #[trigger] self.contains(e)
                == before.contains(e) by {
                assert(self@.contains_key(e) == detached@.contains_key(e));
                assert(detached@.contains_key(e) == created@.contains_key(e));
            }
            before.lemma_table_of(entity);
            assert(before.table_mask(t as int) != mask);
            assert(created.table_mask(t as int) == before.table_mask(t as int));
            assert(t != target);
            assert forall|u: int| 0 <= u < self.table_count() implies #[trigger] self.table_entities(
                u,
            ) == {
                let kept = if u == before.table_of(entity) {
                    swap_removed(before.table_entities(u), before.index_of(entity))
                } else {
                    before.entities_at(u)
                };
                if u == target {
                    kept + seq![entity]
                } else {
                    kept
                }
            } by {
                assert(self.table_entities(u) == if u == target {
                    detached.table_entities(u).push(entity)
                } else {
                    detached.table_entities(u)
                });
                assert(detached.table_entities(u) == if u == t {
                    swap_removed(created.table_entities(u), created.index_of(entity))
                } else {
                    created.table_entities(u)
                });
                if u < before.table_count() {
                    assert(created.tables@[u] == before.tables@[u]);
                }
                assert(detached.table_entities(u).push(entity) =~= detached.table_entities(u)
                    + seq![entity]);
            }
        }
    }
}

impl Default for World {
    /// An empty store.
    fn default() -> (world: World)
        ensures
            world.wf(),
            world@ == Map::<EntityId, Row>::empty(),
            world.slot_count() == 0,
            world.table_count() == 0,
            world.free_slots() == Seq::<u32>::empty(),
            forall|e: EntityId| !world.contains(e) && !world.is_stale(e),
            world.spec_resources().is_initial(),
    {
        World::new()
    }
}

/// Whether `count` more entities can be spawned: the slots in use and the
/// new ones can all be numbered.
pub fn can_spawn(world: &World, count: usize) -> (fits: bool)
    requires
        world.wf(),
    ensures
        fits == (world.slot_count() + count <= u32::MAX),
{
    count <= u32::MAX as usize && world.locations.len() <= u32::MAX as usize - count
}

/// Spawns `count` entities that carry the kinds in `mask`, each kind with
/// its default value, and returns them in creation order. They are put in
/// the table for exactly `mask`, which is created if there is none.
pub fn spawn_entities(world: &mut World, mask: u32, count: usize) -> (ids: Vec<EntityId>)
    requires
        old(world).wf(),
        old(world).slot_count() + count <= u32::MAX,
    ensures
        ids@.len() == count,
        World::spawned(*old(world), *final(world), mask, ids@),
{
    let ghost before = *world;
    let t = world.get_or_create_table(mask);
    let mut ids: Vec<EntityId> = Vec::new();
    let mut n: usize = 0;
    proof {
        assert forall|e: EntityId| before.contains(e) implies world.row_of(e) == before.row_of(
            e,
        ) by {
            let location = before.locations@[e.id as int];
            assert(location.allocated);
        }
        assert(before.free_slots_after(0) =~= before.free_slots());
        assert forall|u: int| 0 <= u < world.table_count() implies #[trigger] world.table_entities(
            u,
        ) == if u == t {
            before.entities_at(u) + ids@
        } else {
            before.entities_at(u)
        } by {
            if u < before.table_count() {
                assert(world.tables@[u] == before.tables@[u]);
            }
            assert(before.entities_at(u) + ids@ =~= before.entities_at(u));
        }
    }
    while n < count
        invariant
            n <= count,
            ids@.len() == n,
            t < world.tables@.len(),
            t == before.table_for(mask),
            world.tables@[t as int].spec_mask() == mask,
            world.locations@.len() + (count - n) <= u32::MAX,
            World::spawned(before, *world, mask, ids@),
        decreases count - n,
    {
        let ghost prev = *world;
        let ghost prev_ids = ids@;
        let entity = world.reserve_slot();
        let ghost reserved = *world;
        world.attach(entity, t, Row::empty(mask));
        ids.push(entity);
        n += 1;
        proof {
            assert(!prev_ids.contains(entity)) by {
                if prev_ids.contains(entity) {
                    let i = choose|i: int| 0 <= i < prev_ids.len() && prev_ids[i] == entity;
                    assert(prev.contains(prev_ids[i]));
                }
            }
            assert(ids@.no_duplicates());
            assert forall|e: EntityId| #[trigger] world.contains(e) == (before.contains(e)
                || ids@.contains(e)) by {
                assert(world@.contains_key(e) == (reserved@.contains_key(e) || e == entity));
                assert(reserved@.contains_key(e) == prev@.contains_key(e));
                assert(prev.contains(e) == (before.contains(e) || prev_ids.contains(e)));
                if prev_ids.contains(e) {
                    let i = choose|i: int| 0 <= i < prev_ids.len() && prev_ids[i] == e;
                    assert(ids@[i] == e);
                }
                if e == entity {
                    assert(ids@[n - 1] == e);
                }
                if ids@.contains(e) {
                    let i = choose|i: int| 0 <= i < ids@.len() && ids@[i] == e;
                    if i < n - 1 {
                        assert(prev_ids[i] == e);
                    }
                }
            }
            assert forall|e: EntityId| prev.contains(e) implies #[trigger] world.row_of(e)
                == prev.row_of(e) && world.table_of(e) == prev.table_of(e) by {
                assert(prev@.contains_key(e));
                assert(reserved@[e] == prev@[e]);
                assert(world@[e] == reserved@[e]);
                assert(world@.contains_key(e));
            }
            assert forall|i: int| 0 <= i < ids@.len() implies world.row_of(
                #[trigger] ids@[i],
            ).is_fresh(mask) by {
                if i < n - 1 {
                    assert(ids@[i] == prev_ids[i]);
                    assert(prev.contains(prev_ids[i]));
                }
            }
            assert forall|i: int| 0 <= i < ids@.len() implies !before.contains(
                #[trigger] ids@[i],
            ) && !before.is_stale(ids@[i]) by {
                if i < n - 1 {
                    assert(ids@[i] == prev_ids[i]);
                } else {
                    assert(prev.is_stale(entity) == before.is_stale(entity));
                }
            }
            assert forall|e: EntityId| prev.contains(e) implies #[trigger] world.table_of(e)
                == prev.table_of(e) by {
                assert(reserved.locations@[e.id as int] == prev.locations@[e.id as int]);
            }
            assert forall|e: EntityId| #[trigger] world.is_stale(e) == prev.is_stale(e) by {
                assert(reserved.is_stale(e) == prev.is_stale(e));
                if (e.id as int) < reserved.locations@.len() {
                    assert(world.locations@[e.id as int].generation
                        == reserved.locations@[e.id as int].generation);
                }
            }
            assert forall|u: int| 0 <= u < before.table_count() implies #[trigger] world.table_mask(
                u,
            ) == before.table_mask(u) by {
                assert(prev.table_mask(u) == before.table_mask(u));
                assert(reserved.tables@[u] == prev.tables@[u]);
            }
            assert forall|u: int| 0 <= u < world.table_count() implies #[trigger] world.table_entities(
                u,
            ) == if u == before.table_for(mask) {
                before.entities_at(u) + ids@
            } else {
                before.entities_at(u)
            } by {
                assert(reserved.tables@[u] == prev.tables@[u]);
                assert(prev.table_entities(u) == if u == before.table_for(mask) {
                    before.entities_at(u) + prev_ids
                } else {
                    before.entities_at(u)
                });
                assert((before.entities_at(u) + prev_ids).push(entity) =~= before.entities_at(u)
                    + ids@);
            }
            let free = before.free_slots();
            let done = n - 1;
            assert(prev.free_slots() == before.free_slots_after(done));
            assert(prev.slot_count() == before.slot_count_after(done));
            assert(world.free_slots() == reserved.free_slots());
            assert(world.slot_count() == reserved.slot_count());
            if done < free.len() {
                let slot = free[free.len() - 1 - done];
                assert(prev.free_slots().last() == slot);
                assert(before.free_ids@.contains(slot));
                assert(prev.generation_of(slot as int) == before.generation_of(slot as int));
                assert(prev.free_slots_after(1) =~= before.free_slots_after(n as int));
            } else {
                assert(prev.free_slots_after(1) =~= before.free_slots_after(n as int));
            }
            assert(entity == before.next_id(done));
            assert forall|i: int| 0 <= i < ids@.len() implies #[trigger] ids@[i] == before.next_id(
                i,
            ) by {
                if i < done {
                    assert(ids@[i] == prev_ids[i]);
                }
            }
            assert forall|slot: int| 0 <= slot < world.slot_count() implies #[trigger] world.generation_of(
                slot,
            ) == if slot < before.slot_count() {
                before.generation_of(slot)
            } else {
                0
            } by {
                assert(world.locations@[slot].generation == reserved.locations@[slot].generation);
                if slot < prev.slot_count() {
                    assert(reserved.locations@[slot] == prev.locations@[slot]);
                    assert(prev.generation_of(slot) == if slot < before.slot_count() {
                        before.generation_of(slot)
                    } else {
                        0
                    });
                }
            }
        }
    }
    ids
}

/// Despawns `entity`: its row is removed and its slot moves on to the next
/// generation, so the identifier stays dead for good. Despawning an entity
/// that is not alive does nothing. Returns whether it was alive.
pub fn despawn(world: &mut World, entity: EntityId) -> (alive: bool)
    requires
        old(world).wf(),
    ensures
        alive == old(world).contains(entity),
        World::despawned(*old(world), *final(world), entity),
{
    let ghost before = *world;
    match world.location(entity) {
        None => false,
        Some((t, r)) => {
            let _ = world.detach(entity, t, r);
            let ghost detached = *world;
            world.retire(entity);
            proof {
                assert forall|e: EntityId| e != entity && before.contains(e) implies #[trigger] world.row_of(e)
                    == before.row_of(e) by {
                    assert(detached@.contains_key(e));
                    assert(detached@[e] == before@[e]);
                    assert(world@[e] == detached@[e]);
                    assert(world@.contains_key(e));
                }
                assert forall|e: EntityId| e != entity implies #[trigger] world.contains(e)
                    == before.contains(e) by {
                    assert(world@.contains_key(e) == detached@.contains_key(e));
                }
                assert(!world@.contains_key(entity));
                assert forall|u: int| 0 <= u < before.table_count() implies #[trigger] world.table_entities(
                    u,
                ) == if u == before.table_of(entity) {
                    swap_removed(before.table_entities(u), before.index_of(entity))
                } else {
                    before.table_entities(u)
                } by {
                    assert(world.table_entities(u) == detached.table_entities(u));
                }
            }
            true
        },
    }
}

/// Adds the kinds in `mask` to `entity`, each with its default value, and
/// moves its row to the table for the larger mask. Kinds it already has
/// keep their values. Returns whether the entity is alive; nothing happens
/// if it is not.
pub fn add_components(world: &mut World, entity: EntityId, mask: u32) -> (alive: bool)
    requires
        old(world).wf(),
    ensures
        alive == old(world).contains(entity),
        World::retyped(
            *old(world),
            *final(world),
            entity,
            old(world).row_of(entity),
            old(world).row_of(entity).mask | mask,
        ),
{
    match world.location(entity) {
        None => false,
        Some((t, r)) => {
            let current = world.tables[t].mask();
            proof {
                world.lemma_table_of(entity);
            }
            assert(current & mask == mask <==> current | mask == current) by (bit_vector);
            if current & mask == mask {
            } else {
                world.move_entity(entity, t, r, current | mask);
            }
            true
        },
    }
}

/// Removes the kinds in `mask` from `entity`, dropping their values, and
/// moves its row to the table for the smaller mask. Removing a kind the
/// entity does not have is not an error: it changes nothing. Returns
/// whether the entity is alive; nothing happens if it is not.
pub fn remove_components(world: &mut World, entity: EntityId, mask: u32) -> (alive: bool)
    requires
        old(world).wf(),
    ensures
        alive == old(world).contains(entity),
        World::retyped(
            *old(world),
            *final(world),
            entity,
            old(world).row_of(entity),
            old(world).row_of(entity).mask & !mask,
        ),
{
    match world.location(entity) {
        None => false,
        Some((t, r)) => {
            let current = world.tables[t].mask();
            proof {
                world.lemma_table_of(entity);
            }
            assert(current & mask == 0 <==> current & !mask == current) by (bit_vector);
            if current & mask == 0 {
            } else {
                world.move_entity(entity, t, r, current & !mask);
            }
            true
        },
    }
}

/// The component of kind `kind` that `entity` carries. There is none if
/// the entity is not alive, if it does not carry the kind, or if `kind` is
/// not one of the eight kind bits.
pub fn get_component(world: &World, entity: EntityId, kind: u32) -> (found: Option<
    ComponentRef<'_>,
>)
    requires
        world.wf(),
    ensures
        match found {
            Some(c) => world.contains(entity) && world.row_of(entity).component(kind) == Some(
                c.value(),
            ),
            None => !world.contains(entity) || world.row_of(entity).component(kind) is None,
        },
{
    match world.location(entity) {
        None => None,
        Some((t, r)) => world.tables[t].get(r, kind),
    }
}

/// The kind mask of `entity`, if it is alive.
pub fn component_mask(world: &World, entity: EntityId) -> (mask: Option<u32>)
    requires
        world.wf(),
    ensures
        mask == if world.contains(entity) {
            Some(world.row_of(entity).mask)
        } else {
            None
        },
{
    match world.location(entity) {
        None => None,
        Some((t, r)) => {
            proof {
                world.lemma_table_of(entity);
            }
            Some(world.tables[t].mask())
        },
    }
}

/// Gives `entity` the component `value`. If the entity does not carry the
/// kind yet, the kind is added and its row moves to the table for the
/// larger mask. Returns whether the entity is alive; nothing happens if it
/// is not.
pub fn set_component(world: &mut World, entity: EntityId, value: Component) -> (alive: bool)
    requires
        old(world).wf(),
    ensures
        alive == old(world).contains(entity),
        World::retyped(
            *old(world),
            *final(world),
            entity,
            old(world).row_of(entity).with(value),
            old(world).row_of(entity).mask | value.spec_kind(),
        ),
{
    let ghost before = *world;
    match world.location(entity) {
        None => false,
        Some((t, r)) => {
            let kind = value.kind();
            let current = world.tables[t].mask();
            proof {
                world.lemma_table_of(entity);
                assert(kind != 0 && (current | kind) & kind != 0 && (current & kind != 0
                    <==> current | kind == current)) by (bit_vector)
                    requires
                        kind == 1 || kind == 2 || kind == 4 || kind == 8 || kind == 16 || kind
                            == 32 || kind == 64 || kind == 128,
                ;
            }
            if current & kind != 0 {
                world.store(entity, t, r, value);
            } else {
                world.move_entity(entity, t, r, current | kind);
                let ghost moved = *world;
                match world.location(entity) {
                    Some((t, r)) => {
                        world.store(entity, t, r, value);
                    },
                    None => {},
                }
                proof {
                    assert forall|e: EntityId| e != entity && before.contains(e) implies #[trigger] world.row_of(e)
                        == before.row_of(e) by {
                        assert(moved.contains(e));
                        assert(moved.row_of(e) == before.row_of(e));
                    }
                    assert forall|e: EntityId| e != entity && before.contains(e) implies #[trigger] world.table_of(e)
                        == before.table_of(e) by {
                        assert(moved.contains(e));
                        assert(moved.table_of(e) == before.table_of(e));
                    }
                    assert forall|e: EntityId| #[trigger] world.is_stale(e) == (before.is_stale(e)
                        || (e == entity && world.is_stale(entity))) by {
                        assert(moved.is_stale(e) == (before.is_stale(e) || (e == entity
                            && moved.is_stale(entity))));
                    }
                    assert forall|u: int| 0 <= u < before.table_count() implies #[trigger] world.table_mask(u)
                        == before.table_mask(u) by {
                        assert(moved.table_mask(u) == before.table_mask(u));
                    }
                }
            }
            true
        },
    }
}

/// The first entity whose kinds include all those of `mask`, if any. The
/// order is that of the tables; within its table the entity is the first row.
pub fn query_first_entity(world: &World, mask: u32) -> (found: Option<EntityId>)
    requires
        world.wf(),
    ensures
        found == world.first_match(mask),
        found matches Some(e) ==> world.contains(e) && includes(world.row_of(e).mask, mask),
        found is None ==> forall|e: EntityId| #[trigger]
            world.contains(e) ==> !includes(world.row_of(e).mask, mask),
{
    let mut t: usize = 0;
    while t < world.tables.len()
        invariant
            t <= world.tables@.len(),
            world.wf(),
            world.first_match(mask) == world.first_match_from(mask, t as int),
            forall|u: int|
                0 <= u < t ==> !(includes((#[trigger] world.tables@[u]).spec_mask(), mask)
                    && world.tables@[u].spec_len() > 0),
        decreases world.tables@.len() - t,
    {
        let table = &world.tables[t];
        if table.mask() & mask == mask && table.len() > 0 {
            let entity = table.entity_at(0);
            proof {
                let e = world.tables@[t as int].entities()[0];
                assert(world.contains(entity));
                world.lemma_table_of(entity);
            }
            return Some(entity);
        }
        t += 1;
    }
    proof {
        assert forall|e: EntityId| #[trigger] world.contains(e) implies !includes(
            world.row_of(e).mask,
            mask,
        ) by {
            world.lemma_table_of(e);
            let location = world.locations@[e.id as int];
            assert(location.allocated);
            assert(world.tables@[location.table_index as int].spec_len() > 0);
        }
    }
    None
}

/// Despawns every entity of `entities` that is alive, and returns those in
/// the order given. An entity that is not alive, or that was named before
/// in the slice, is skipped.
pub fn despawn_entities(world: &mut World, entities: &[EntityId]) -> (gone: Vec<EntityId>)
    requires
        old(world).wf(),
    ensures
        gone@ == World::live_once(*old(world), entities@),
        World::despawned_all(*old(world), *final(world), entities@),
        World::despawned_in_turn(*old(world), *final(world), entities@),
{
    let ghost before = *world;
    let mut gone: Vec<EntityId> = Vec::new();
    let mut n: usize = 0;
    proof {
        assert(entities@.take(0) =~= Seq::<EntityId>::empty());
    }
    while n < entities.len()
        invariant
            n <= entities@.len(),
            gone@ == World::live_once(before, entities@.take(n as int)),
            World::despawned_all(before, *world, entities@.take(n as int)),
            World::despawned_in_turn(before, *world, entities@.take(n as int)),
        decreases entities@.len() - n,
    {
        let ghost prev = *world;
        let ghost seen = entities@.take(n as int);
        let entity = entities[n];
        let alive = despawn(world, entity);
        if alive {
            gone.push(entity);
        }
        n += 1;
        proof {
            let now = entities@.take(n as int);
            assert(now.drop_last() =~= seen);
            assert(now.last() == entity);
            assert forall|e: EntityId| #[trigger] now.contains(e) == (seen.contains(e) || e
                == entity) by {
                if seen.contains(e) {
                    let i = choose|i: int| 0 <= i < seen.len() && seen[i] == e;
                    assert(now[i] == e);
                }
                if e == entity {
                    assert(now[n - 1] == e);
                }
                if now.contains(e) {
                    let i = choose|i: int| 0 <= i < now.len() && now[i] == e;
                    if i < n - 1 {
                        assert(seen[i] == e);
                    }
                }
            }
            assert forall|e: EntityId| #[trigger] world.contains(e) == (before.contains(e)
                && !now.contains(e)) by {
                assert(prev.contains(e) == (before.contains(e) && !seen.contains(e)));
                if e != entity {
                    assert(world.contains(e) == prev.contains(e));
                }
            }
            assert forall|e: EntityId| world.contains(e) implies #[trigger] world.row_of(e)
                == before.row_of(e) by {
                assert(prev.contains(e));
                assert(prev.row_of(e) == before.row_of(e));
            }
            assert forall|e: EntityId| world.contains(e) implies #[trigger] world.table_of(e)
                == before.table_of(e) by {
                assert(prev.contains(e));
                assert(prev.table_of(e) == before.table_of(e));
            }
            assert forall|e: EntityId| #[trigger] world.is_stale(e) == (before.is_stale(e) || (
            before.contains(e) && now.contains(e))) by {
                assert(prev.is_stale(e) == (before.is_stale(e) || (before.contains(e)
                    && seen.contains(e))));
                assert(world.is_stale(e) == (prev.is_stale(e) || (e == entity && world.is_stale(
                    entity,
                ))));
                assert(prev.contains(entity) == (before.contains(entity) && !seen.contains(
                    entity,
                )));
                if seen.contains(entity) && before.contains(entity) {
                    assert(prev.is_stale(entity));
                }
            }
            assert forall|u: int| 0 <= u < before.table_count() implies #[trigger] world.table_mask(u)
                == before.table_mask(u) by {
                assert(prev.table_mask(u) == before.table_mask(u));
            }
            assert(prev.contains(entity) == (before.contains(entity) && !seen.contains(entity)));
            assert forall|slot: int| 0 <= slot < before.slot_count() implies #[trigger] world.generation_of(
                slot,
            ) == {
                let held = EntityId { id: slot as u32, generation: before.generation_of(slot) };
                held.generation + if before.contains(held) && now.contains(held) {
                    1int
                } else {
                    0int
                }
            } by {
                let held = EntityId { id: slot as u32, generation: before.generation_of(slot) };
                assert(prev.generation_of(slot) == held.generation + if before.contains(held)
                    && seen.contains(held) {
                    1int
                } else {
                    0int
                });
                assert(now.contains(held) == (seen.contains(held) || held == entity));
                if slot == entity.id {
                    if prev.contains(entity) {
                        assert(before.contains(entity));
                        assert(held == entity);
                    } else {
                        assert(world.generation_of(slot) == prev.generation_of(slot));
                    }
                } else {
                    assert(world.generation_of(slot) == prev.generation_of(slot));
                }
            }
            World::lemma_despawned_next(before, prev, *world, now);
            let before_gone = World::live_once(before, seen);
            if alive {
                assert(gone@.drop_last() =~= before_gone);
                assert(gone@.last() == entity);
            }
            assert(world.free_slots() =~= before.free_slots() + World::released(gone@));
        }
    }
    proof {
        assert(entities@.take(n as int) =~= entities@);
    }
    gone
}

} // verus!
