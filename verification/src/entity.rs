//! Entity identifiers.

use vstd::prelude::*;

verus! {

/// Names one row of component data: a slot number and the generation of
/// the slot at the time the entity was spawned.
#[derive(Clone, Copy, Debug, PartialEq, Eq, Hash, Structural)]
pub struct EntityId {
    pub id: u32,
    pub generation: u32,
}

impl Default for EntityId {
    fn default() -> (e: Self)
        ensures
            e == (EntityId { id: 0, generation: 0 }),
    {
        EntityId { id: 0, generation: 0 }
    }
}

} // verus!
