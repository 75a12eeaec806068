//! What holds of the entity store across several operations.

use vstd::prelude::*;
use crate::components::{has_kind, includes, is_kind, GLOBAL_TRANSFORM};
use crate::entity::EntityId;
use crate::queries::{active_camera_matrices, ACTIVE_CAMERA_KINDS};
use crate::resources::Resources;
use crate::row::Row;
use crate::world::World;

verus! {

/// An entity that was just spawned is alive. A kind outside its spawn mask
/// is absent from it, and each of the eight kinds inside the mask is
/// present with its default value.
pub proof fn law_spawned_components(
    pre: World,
    post: World,
    mask: u32,
    ids: Seq<EntityId>,
    i: int,
    kind: u32,
)
    requires
        World::spawned(pre, post, mask, ids),
        0 <= i < ids.len(),
    ensures
        post.contains(ids[i]),
        !has_kind(mask, kind) ==> post.row_of(ids[i]).component(kind) is None,
        has_kind(mask, kind) && is_kind(kind) ==> (post.row_of(ids[i]).component(
            kind,
        ) matches Some(c) && c.is_default()),
{
    assert(ids.contains(ids[i]));
    assert(post.row_of(ids[i]).is_fresh(mask));
}

/// Adding kinds that an entity lacks and then removing the same kinds
/// leaves the entity in the table it was in, with every component as it
/// was, and changes nothing about any other entity.
pub proof fn law_add_then_remove(
    start: World,
    added: World,
    removed: World,
    entity: EntityId,
    mask: u32,
)
    requires
        start.wf(),
        start.contains(entity),
        start.row_of(entity).mask & mask == 0,
        World::retyped(
            start,
            added,
            entity,
            start.row_of(entity),
            start.row_of(entity).mask | mask,
        ),
        World::retyped(
            added,
            removed,
            entity,
            added.row_of(entity),
            added.row_of(entity).mask & !mask,
        ),
    ensures
        removed.contains(entity),
        removed.row_of(entity) == start.row_of(entity),
        removed.table_of(entity) == start.table_of(entity),
        removed@ == start@,
{
    let before = start.row_of(entity);
    let between = added.row_of(entity);
    let after = removed.row_of(entity);
    let m = before.mask;
    start.lemma_table_of(entity);
    added.lemma_table_of(entity);
    removed.lemma_table_of(entity);
    assert((m | mask) & !mask == m && forall|k: u32|
        #![trigger has_kind(m, k)]
        has_kind(m, k) ==> has_kind(m | mask, k)) by (bit_vector)
        requires
            m & mask == 0,
    ;
    assert(after == before);
    assert(removed.table_mask(start.table_of(entity)) == m) by {
        assert(added.table_mask(start.table_of(entity)) == m);
    }
    removed.lemma_table_masks_differ(removed.table_of(entity), start.table_of(entity));
    assert forall|e: EntityId| #[trigger] removed.contains(e) == start.contains(e) by {
        assert(added.contains(e) == start.contains(e));
    }
    assert forall|e: EntityId| start.contains(e) implies #[trigger] removed.row_of(e)
        == start.row_of(e) by {
        if e != entity {
            assert(added.contains(e));
            assert(added.row_of(e) == start.row_of(e));
        }
    }
    assert(removed@ =~= start@);
}

/// Despawning a live entity makes its identifier stale, and a stale
/// identifier names no live entity.
pub proof fn law_despawned_is_dead(pre: World, post: World, entity: EntityId)
    requires
        pre.contains(entity),
        World::despawned(pre, post, entity),
    ensures
        post.is_stale(entity),
        !post.contains(entity),
{
}

/// A stale identifier stays stale when entities are spawned: none of the
/// new identifiers equals it, and it names no live entity afterwards, even
/// where a new entity took over its slot.
pub proof fn law_stale_after_spawn(
    pre: World,
    post: World,
    mask: u32,
    ids: Seq<EntityId>,
    entity: EntityId,
)
    requires
        pre.is_stale(entity),
        World::spawned(pre, post, mask, ids),
    ensures
        post.is_stale(entity),
        !post.contains(entity),
        !ids.contains(entity),
{
    post.lemma_stale_is_dead(entity);
    pre.lemma_stale_is_dead(entity);
}

/// A stale identifier stays stale when an entity is despawned.
pub proof fn law_stale_after_despawn(pre: World, post: World, gone: EntityId, entity: EntityId)
    requires
        pre.is_stale(entity),
        World::despawned(pre, post, gone),
    ensures
        post.is_stale(entity),
        !post.contains(entity),
{
    post.lemma_stale_is_dead(entity);
}

/// A stale identifier stays stale when a batch of entities is despawned.
pub proof fn law_stale_after_despawn_all(
    pre: World,
    post: World,
    gone: Seq<EntityId>,
    entity: EntityId,
)
    requires
        pre.is_stale(entity),
        World::despawned_all(pre, post, gone),
    ensures
        post.is_stale(entity),
        !post.contains(entity),
{
    post.lemma_stale_is_dead(entity);
}

/// A stale identifier stays stale when the kinds or the components of an
/// entity change.
pub proof fn law_stale_after_retype(
    pre: World,
    post: World,
    changed: EntityId,
    source: Row,
    mask: u32,
    entity: EntityId,
)
    requires
        pre.is_stale(entity),
        World::retyped(pre, post, changed, source, mask),
    ensures
        post.is_stale(entity),
        !post.contains(entity),
{
    post.lemma_stale_is_dead(entity);
}

/// An entity that was despawned is not alive after a later spawn, whatever
/// slot the new entities are given.
pub proof fn law_despawn_then_spawn(
    start: World,
    despawned: World,
    respawned: World,
    entity: EntityId,
    mask: u32,
    ids: Seq<EntityId>,
)
    requires
        start.contains(entity),
        World::despawned(start, despawned, entity),
        World::spawned(despawned, respawned, mask, ids),
    ensures
        !respawned.contains(entity),
        !ids.contains(entity),
{
    law_stale_after_spawn(despawned, respawned, mask, ids, entity);
}

/// Without a live entity that carries an active-camera marker, a camera
/// and a local transform, the camera query finds nothing.
pub proof fn law_no_active_camera(world: World, resources: Resources)
    requires
        world.wf(),
        forall|e: EntityId| #[trigger]
            world.contains(e) ==> !includes(world.row_of(e).mask, ACTIVE_CAMERA_KINDS),
    ensures
        active_camera_matrices(world, resources) is None,
{
    world.lemma_first_match(ACTIVE_CAMERA_KINDS);
}

/// Once a live entity carries an active-camera marker, a camera and a
/// local transform, the camera query finds a camera, provided that every
/// such entity carries a global transform too.
pub proof fn law_active_camera_found(world: World, resources: Resources, entity: EntityId)
    requires
        world.wf(),
        world.contains(entity),
        includes(world.row_of(entity).mask, ACTIVE_CAMERA_KINDS),
        forall|e: EntityId| #[trigger]
            world.contains(e) && includes(world.row_of(e).mask, ACTIVE_CAMERA_KINDS) ==> has_kind(
                world.row_of(e).mask,
                GLOBAL_TRANSFORM,
            ),
    ensures
        active_camera_matrices(world, resources) matches Some((found, _)) && world.contains(found)
            && includes(world.row_of(found).mask, ACTIVE_CAMERA_KINDS),
{
    world.lemma_first_match(ACTIVE_CAMERA_KINDS);
    let found = world.first_match(ACTIVE_CAMERA_KINDS)->0;
    world.lemma_table_of(found);
    let m = world.row_of(found).mask;
    assert(m & 32 != 0 && m & 1 != 0) by (bit_vector)
        requires
            m & (64u32 | 32u32 | 1u32) == (64u32 | 32u32 | 1u32),
    ;
}

} // verus!
