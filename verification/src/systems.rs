//! The per-tick update: every table is handed to the systems, tables in
//! parallel, the rows of one table in order.

use rayon::iter::{IntoParallelRefMutIterator, ParallelIterator};
use vstd::prelude::*;
use crate::components::includes;
use crate::table::Table;
use crate::world::World;

verus! {

/// Whether `table` has every kind of `mask`, so that a system that needs
/// those kinds may run on it.
pub fn table_has_components(table: &Table, mask: u32) -> (capable: bool)
    ensures
        capable == includes(table.spec_mask(), mask),
{
    table.mask() & mask == mask
}

/// What one tick makes of a table. No system is registered, so a tick
/// leaves every table as it is.
pub open spec fn table_updated(pre: Table, post: Table, delta_time: u32) -> bool {
    post == pre
}

/// Runs the systems on one table. `delta_time` is the bit pattern of the
/// seconds since the last tick.
pub fn update_table(table: &mut Table, delta_time: u32)
    ensures
        table_updated(*old(table), *final(table), delta_time),
{
}

/// Calls rayon's `par_iter_mut` on the tables and `for_each` on the
/// result, with `update_table` as the operation. Claimed of rayon: the
/// operation is applied to each table exactly once, and the vector keeps
/// its length and order.
#[verifier::external_body]
pub(crate) fn par_update_tables(tables: &mut Vec<Table>, delta_time: u32)
    ensures
        final(tables)@.len() == old(tables)@.len(),
        forall|i: int|
            0 <= i < old(tables)@.len() ==> table_updated(
                old(tables)@[i],
                #[trigger] final(tables)@[i],
                delta_time,
            ),
{
    tables.par_iter_mut().for_each(|table| update_table(table, delta_time));
}

/// Runs one tick of the systems over every table of `world`, with the
/// time step of its resources. Entities are neither created nor removed.
pub fn run_systems(world: &mut World)
    requires
        old(world).wf(),
    ensures
        World::same_entities(*old(world), *final(world)),
{
    let delta_time = world.resources().delta_time;
    world.update_tables(delta_time);
}

} // verus!
