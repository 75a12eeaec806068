//! An archetype table: the rows of all entities that carry one exact set
//! of component kinds, stored as one column per kind.

use vstd::prelude::*;
use crate::components::{
    has_kind, ActiveCamera, Camera, Color, GlobalTransform, LocalTransform, Name, Parent, Player,
    ACTIVE_CAMERA, CAMERA, COLOR, GLOBAL_TRANSFORM, LOCAL_TRANSFORM, NAME, PARENT, PLAYER,
};
use crate::entity::EntityId;
use crate::row::{Component, ComponentRef, Row};

verus! {

/// The value at `index` of a column, if the table has the column.
pub open spec fn cell<T>(column: Seq<T>, present: bool, index: int) -> Option<T> {
    if present {
        Some(column[index])
    } else {
        None
    }
}

/// `rows` after the value at `index` was taken out and the last value put
/// in its place.
pub open spec fn swap_removed<T>(rows: Seq<T>, index: int) -> Seq<T> {
    rows.update(index, rows.last()).drop_last()
}

/// A column holds one value per row if the table has it, and nothing if not.
pub open spec fn column_fits(len: nat, present: bool, rows: nat) -> bool {
    len == if present {
        rows
    } else {
        0
    }
}

/// Takes the value at `index` out of a column the table has, moving the
/// last value into its place.
fn take_cell<T>(column: &mut Vec<T>, present: bool, index: usize) -> (taken: Option<T>)
    requires
        present ==> index < old(column).len(),
    ensures
        taken == cell(old(column)@, present, index as int),
        present ==> final(column)@ == old(column)@.update(
            index as int,
            old(column)@.last(),
        ).drop_last(),
        !present ==> final(column)@ == old(column)@,
{
    if present {
        Some(column.swap_remove(index))
    } else {
        None
    }
}

/// The rows of the entities whose kind mask is exactly `mask`.
pub struct Table {
    mask: u32,
    entity_indices: Vec<EntityId>,
    local_transform: Vec<LocalTransform>,
    global_transform: Vec<GlobalTransform>,
    parent: Vec<Parent>,
    name: Vec<Name>,
    color: Vec<Color>,
    camera: Vec<Camera>,
    active_camera: Vec<ActiveCamera>,
    player: Vec<Player>,
}

impl Table {
    /// The kind mask shared by all rows.
    pub closed spec fn spec_mask(&self) -> u32 {
        self.mask
    }

    /// The entities of the rows, in row order.
    pub closed spec fn entities(&self) -> Seq<EntityId> {
        self.entity_indices@
    }

    /// The number of rows.
    pub open spec fn spec_len(&self) -> nat {
        self.entities().len()
    }

    /// Every column the mask names has one value per row; the others are empty.
    pub closed spec fn wf(&self) -> bool {
        let rows = self.entity_indices@.len();
        &&& column_fits(self.local_transform@.len(), has_kind(self.mask, LOCAL_TRANSFORM), rows)
        &&& column_fits(self.global_transform@.len(), has_kind(self.mask, GLOBAL_TRANSFORM), rows)
        &&& column_fits(self.parent@.len(), has_kind(self.mask, PARENT), rows)
        &&& column_fits(self.name@.len(), has_kind(self.mask, NAME), rows)
        &&& column_fits(self.color@.len(), has_kind(self.mask, COLOR), rows)
        &&& column_fits(self.camera@.len(), has_kind(self.mask, CAMERA), rows)
        &&& column_fits(self.active_camera@.len(), has_kind(self.mask, ACTIVE_CAMERA), rows)
        &&& column_fits(self.player@.len(), has_kind(self.mask, PLAYER), rows)
    }

    /// The components of row `index`.
    pub closed spec fn row(&self, index: int) -> Row {
        Row {
            mask: self.mask,
            local_transform: cell(
                self.local_transform@,
                has_kind(self.mask, LOCAL_TRANSFORM),
                index,
            ),
            global_transform: cell(
                self.global_transform@,
                has_kind(self.mask, GLOBAL_TRANSFORM),
                index,
            ),
            parent: cell(self.parent@, has_kind(self.mask, PARENT), index),
            name: cell(self.name@, has_kind(self.mask, NAME), index),
            color: cell(self.color@, has_kind(self.mask, COLOR), index),
            camera: cell(self.camera@, has_kind(self.mask, CAMERA), index),
            active_camera: cell(self.active_camera@, has_kind(self.mask, ACTIVE_CAMERA), index),
            player: cell(self.player@, has_kind(self.mask, PLAYER), index),
        }
    }

    /// Every row carries exactly the kinds of the table's mask.
    pub proof fn lemma_row_wf(&self, index: int)
        ensures
            self.row(index).wf(),
            self.row(index).mask == self.spec_mask(),
    {
    }

    /// An empty table for the kinds in `mask`.
    pub fn new(mask: u32) -> (table: Table)
        ensures
            table.wf(),
            table.spec_mask() == mask,
            table.spec_len() == 0,
    {
        Table {
            mask,
            entity_indices: Vec::new(),
            local_transform: Vec::new(),
            global_transform: Vec::new(),
            parent: Vec::new(),
            name: Vec::new(),
            color: Vec::new(),
            camera: Vec::new(),
            active_camera: Vec::new(),
            player: Vec::new(),
        }
    }

    /// The kind mask shared by all rows.
    #[verifier::when_used_as_spec(spec_mask)]
    pub fn mask(&self) -> (mask: u32)
        ensures
            mask == self.spec_mask(),
    {
        self.mask
    }

    /// The number of rows.
    pub fn len(&self) -> (len: usize)
        ensures
            len == self.spec_len(),
    {
        self.entity_indices.len()
    }

    /// The entity of row `index`.
    pub fn entity_at(&self, index: usize) -> (entity: EntityId)
        requires
            index < self.spec_len(),
        ensures
            entity == self.entities()[index as int],
    {
        self.entity_indices[index]
    }

    /// Appends a row for `entity`. Of `row`, the values of the table's kinds
    /// are stored; a kind that `row` lacks gets its default value.
    pub fn push_row(&mut self, entity: EntityId, row: Row)
        requires
            old(self).wf(),
        ensures
            final(self).wf(),
            final(self).spec_mask() == old(self).spec_mask(),
            final(self).entities() == old(self).entities().push(entity),
            forall|i: int|
                0 <= i < old(self).spec_len() ==> #[trigger] final(self).row(i) == old(self).row(i),
            final(self).row(old(self).spec_len() as int).is_moved_from(row, old(self).spec_mask()),
    {
        let mask = self.mask;
        self.entity_indices.push(entity);
        if mask & LOCAL_TRANSFORM != 0 {
            self.local_transform.push(
                match row.local_transform {
                    Some(v) => v,
                    None => LocalTransform::default(),
                },
            );
        }
        if mask & GLOBAL_TRANSFORM != 0 {
            self.global_transform.push(
                match row.global_transform {
                    Some(v) => v,
                    None => GlobalTransform::default(),
                },
            );
        }
        if mask & PARENT != 0 {
            self.parent.push(
                match row.parent {
                    Some(v) => v,
                    None => Parent::default(),
                },
            );
        }
        if mask & NAME != 0 {
            self.name.push(
                match row.name {
                    Some(v) => v,
                    None => Name::default(),
                },
            );
        }
        if mask & COLOR != 0 {
            self.color.push(
                match row.color {
                    Some(v) => v,
                    None => Color::default(),
                },
            );
        }
        if mask & CAMERA != 0 {
            self.camera.push(
                match row.camera {
                    Some(v) => v,
                    None => Camera::default(),
                },
            );
        }
        if mask & ACTIVE_CAMERA != 0 {
            self.active_camera.push(
                match row.active_camera {
                    Some(v) => v,
                    None => ActiveCamera::default(),
                },
            );
        }
        if mask & PLAYER != 0 {
            self.player.push(
                match row.player {
                    Some(v) => v,
                    None => Player::default(),
                },
            );
        }
    }

    /// Takes row `index` out of the table. The last row moves into its place.
    pub fn swap_remove_row(&mut self, index: usize) -> (row: Row)
        requires
            old(self).wf(),
            index < old(self).spec_len(),
        ensures
            final(self).wf(),
            final(self).spec_mask() == old(self).spec_mask(),
            row == old(self).row(index as int),
            final(self).entities() == swap_removed(old(self).entities(), index as int),
            forall|i: int|
                0 <= i < final(self).spec_len() ==> #[trigger] final(self).row(i) == old(self).row(
                    if i == index {
                        old(self).spec_len() - 1
                    } else {
                        i
                    },
                ),
    {
        let mask = self.mask;
        self.entity_indices.swap_remove(index);
        let local_transform = take_cell(
            &mut self.local_transform,
            mask & LOCAL_TRANSFORM != 0,
            index,
        );
        let global_transform = take_cell(
            &mut self.global_transform,
            mask & GLOBAL_TRANSFORM != 0,
            index,
        );
        let parent = take_cell(&mut self.parent, mask & PARENT != 0, index);
        let name = take_cell(&mut self.name, mask & NAME != 0, index);
        let color = take_cell(&mut self.color, mask & COLOR != 0, index);
        let camera = take_cell(&mut self.camera, mask & CAMERA != 0, index);
        let active_camera = take_cell(&mut self.active_camera, mask & ACTIVE_CAMERA != 0, index);
        let player = take_cell(&mut self.player, mask & PLAYER != 0, index);
        Row {
            mask,
            local_transform,
            global_transform,
            parent,
            name,
            color,
            camera,
            active_camera,
            player,
        }
    }

    /// The component of kind `kind` in row `index`, if `kind` is one of the
    /// eight kind bits and the table has its column.
    pub fn get(&self, index: usize, kind: u32) -> (found: Option<ComponentRef<'_>>)
        requires
            self.wf(),
            index < self.spec_len(),
        ensures
            match found {
                Some(c) => self.row(index as int).component(kind) == Some(c.value()),
                None => self.row(index as int).component(kind) is None,
            },
    {
        if kind == LOCAL_TRANSFORM && self.mask & LOCAL_TRANSFORM != 0 {
            Some(ComponentRef::LocalTransform(&self.local_transform[index]))
        } else if kind == GLOBAL_TRANSFORM && self.mask & GLOBAL_TRANSFORM != 0 {
            Some(ComponentRef::GlobalTransform(&self.global_transform[index]))
        } else if kind == PARENT && self.mask & PARENT != 0 {
            Some(ComponentRef::Parent(&self.parent[index]))
        } else if kind == NAME && self.mask & NAME != 0 {
            Some(ComponentRef::Name(&self.name[index]))
        } else if kind == COLOR && self.mask & COLOR != 0 {
            Some(ComponentRef::Color(&self.color[index]))
        } else if kind == CAMERA && self.mask & CAMERA != 0 {
            Some(ComponentRef::Camera(&self.camera[index]))
        } else if kind == ACTIVE_CAMERA && self.mask & ACTIVE_CAMERA != 0 {
            Some(ComponentRef::ActiveCamera(&self.active_camera[index]))
        } else if kind == PLAYER && self.mask & PLAYER != 0 {
            Some(ComponentRef::Player(&self.player[index]))
        } else {
            None
        }
    }

    /// Stores `value` in row `index`. The table must have the column.
    pub fn set(&mut self, index: usize, value: Component)
        requires
            old(self).wf(),
            index < old(self).spec_len(),
            has_kind(old(self).spec_mask(), value.spec_kind()),
        ensures
            final(self).wf(),
            final(self).spec_mask() == old(self).spec_mask(),
            final(self).entities() == old(self).entities(),
            final(self).row(index as int) == old(self).row(index as int).with(value),
            forall|i: int|
                0 <= i < old(self).spec_len() && i != index ==> #[trigger] final(self).row(i)
                    == old(self).row(i),
    {
        match value {
            Component::LocalTransform(v) => {
                self.local_transform[index] = v;
            },
            Component::GlobalTransform(v) => {
                self.global_transform[index] = v;
            },
            Component::Parent(v) => {
                self.parent[index] = v;
            },
            Component::Name(v) => {
                self.name[index] = v;
            },
            Component::Color(v) => {
                self.color[index] = v;
            },
            Component::Camera(v) => {
                self.camera[index] = v;
            },
            Component::ActiveCamera(v) => {
                self.active_camera[index] = v;
            },
            Component::Player(v) => {
                self.player[index] = v;
            },
        }
    }
}

} // verus!
