//! One entity's components as a value, and a single component of any kind.

use vstd::prelude::*;
use crate::components::{
    has_kind, ActiveCamera, Camera, Color, GlobalTransform, LocalTransform, Name, Parent, Player,
    Transform, ACTIVE_CAMERA, CAMERA, COLOR, GLOBAL_TRANSFORM, LOCAL_TRANSFORM, NAME, PARENT,
    PLAYER,
};
use crate::entity::EntityId;
use crate::linear::{Mat4, Vec4, ZERO};

verus! {

/// A component of any kind, owned.
#[derive(Debug, PartialEq, Eq)]
pub enum Component {
    LocalTransform(LocalTransform),
    GlobalTransform(GlobalTransform),
    Parent(Parent),
    Name(Name),
    Color(Color),
    Camera(Camera),
    ActiveCamera(ActiveCamera),
    Player(Player),
}

/// A component of any kind, borrowed from the store.
#[derive(Clone, Copy, Debug, PartialEq, Eq)]
pub enum ComponentRef<'a> {
    LocalTransform(&'a LocalTransform),
    GlobalTransform(&'a GlobalTransform),
    Parent(&'a Parent),
    Name(&'a Name),
    Color(&'a Color),
    Camera(&'a Camera),
    ActiveCamera(&'a ActiveCamera),
    Player(&'a Player),
}

impl Clone for Component {
    fn clone(&self) -> (copy: Self)
        ensures
            copy == *self,
    {
        match self {
            Component::LocalTransform(v) => Component::LocalTransform(*v),
            Component::GlobalTransform(v) => Component::GlobalTransform(*v),
            Component::Parent(v) => Component::Parent(*v),
            Component::Name(v) => Component::Name(v.clone()),
            Component::Color(v) => Component::Color(*v),
            Component::Camera(v) => Component::Camera(*v),
            Component::ActiveCamera(v) => Component::ActiveCamera(*v),
            Component::Player(v) => Component::Player(*v),
        }
    }
}

impl Component {
    /// The kind bit of this component.
    pub open spec fn spec_kind(&self) -> u32 {
        match self {
            Component::LocalTransform(_) => LOCAL_TRANSFORM,
            Component::GlobalTransform(_) => GLOBAL_TRANSFORM,
            Component::Parent(_) => PARENT,
            Component::Name(_) => NAME,
            Component::Color(_) => COLOR,
            Component::Camera(_) => CAMERA,
            Component::ActiveCamera(_) => ACTIVE_CAMERA,
            Component::Player(_) => PLAYER,
        }
    }

    /// The kind bit of this component.
    #[verifier::when_used_as_spec(spec_kind)]
    pub fn kind(&self) -> (k: u32)
        ensures
            k == self.spec_kind(),
    {
        match self {
            Component::LocalTransform(_) => LOCAL_TRANSFORM,
            Component::GlobalTransform(_) => GLOBAL_TRANSFORM,
            Component::Parent(_) => PARENT,
            Component::Name(_) => NAME,
            Component::Color(_) => COLOR,
            Component::Camera(_) => CAMERA,
            Component::ActiveCamera(_) => ACTIVE_CAMERA,
            Component::Player(_) => PLAYER,
        }
    }

    /// Whether this is the value a freshly spawned entity gets for its kind.
    pub open spec fn is_default(&self) -> bool {
        match self {
            Component::LocalTransform(t) => *t == Transform::identity(),
            Component::GlobalTransform(m) => *m == Mat4::zero(),
            Component::Parent(p) => *p == Parent(EntityId { id: 0, generation: 0 }),
            Component::Name(n) => n@ == Seq::<char>::empty(),
            Component::Color(c) => *c == Color(Vec4::splat(ZERO)),
            Component::Camera(c) => *c == Camera::standard(),
            Component::ActiveCamera(_) => true,
            Component::Player(p) => *p == Player(0),
        }
    }
}

impl<'a> ComponentRef<'a> {
    /// The component that is borrowed.
    pub open spec fn value(&self) -> Component {
        match self {
            ComponentRef::LocalTransform(t) => Component::LocalTransform(**t),
            ComponentRef::GlobalTransform(m) => Component::GlobalTransform(**m),
            ComponentRef::Parent(p) => Component::Parent(**p),
            ComponentRef::Name(n) => Component::Name(**n),
            ComponentRef::Color(c) => Component::Color(**c),
            ComponentRef::Camera(c) => Component::Camera(**c),
            ComponentRef::ActiveCamera(a) => Component::ActiveCamera(**a),
            ComponentRef::Player(p) => Component::Player(**p),
        }
    }
}

/// The components of one entity: its kind mask and, for each of the eight
/// kinds, the value it carries if it carries one.
#[derive(Debug, PartialEq, Eq)]
pub struct Row {
    pub mask: u32,
    pub local_transform: Option<LocalTransform>,
    pub global_transform: Option<GlobalTransform>,
    pub parent: Option<Parent>,
    pub name: Option<Name>,
    pub color: Option<Color>,
    pub camera: Option<Camera>,
    pub active_camera: Option<ActiveCamera>,
    pub player: Option<Player>,
}

impl Row {
    /// A value is held for exactly the kinds in the mask.
    pub open spec fn wf(&self) -> bool {
        &&& self.local_transform is Some <==> has_kind(self.mask, LOCAL_TRANSFORM)
        &&& self.global_transform is Some <==> has_kind(self.mask, GLOBAL_TRANSFORM)
        &&& self.parent is Some <==> has_kind(self.mask, PARENT)
        &&& self.name is Some <==> has_kind(self.mask, NAME)
        &&& self.color is Some <==> has_kind(self.mask, COLOR)
        &&& self.camera is Some <==> has_kind(self.mask, CAMERA)
        &&& self.active_camera is Some <==> has_kind(self.mask, ACTIVE_CAMERA)
        &&& self.player is Some <==> has_kind(self.mask, PLAYER)
    }

    /// The component of kind `kind`, where `kind` is one of the eight kind
    /// bits and the row carries it.
    pub open spec fn component(&self, kind: u32) -> Option<Component> {
        if kind == LOCAL_TRANSFORM {
            match self.local_transform {
                Some(v) => Some(Component::LocalTransform(v)),
                None => None,
            }
        } else if kind == GLOBAL_TRANSFORM {
            match self.global_transform {
                Some(v) => Some(Component::GlobalTransform(v)),
                None => None,
            }
        } else if kind == PARENT {
            match self.parent {
                Some(v) => Some(Component::Parent(v)),
                None => None,
            }
        } else if kind == NAME {
            match self.name {
                Some(v) => Some(Component::Name(v)),
                None => None,
            }
        } else if kind == COLOR {
            match self.color {
                Some(v) => Some(Component::Color(v)),
                None => None,
            }
        } else if kind == CAMERA {
            match self.camera {
                Some(v) => Some(Component::Camera(v)),
                None => None,
            }
        } else if kind == ACTIVE_CAMERA {
            match self.active_camera {
                Some(v) => Some(Component::ActiveCamera(v)),
                None => None,
            }
        } else if kind == PLAYER {
            match self.player {
                Some(v) => Some(Component::Player(v)),
                None => None,
            }
        } else {
            None
        }
    }

    /// Every component the row carries has its default value.
    pub open spec fn is_default(&self) -> bool {
        &&& self.local_transform matches Some(v) ==> v == Transform::identity()
        &&& self.global_transform matches Some(v) ==> v == Mat4::zero()
        &&& self.parent matches Some(v) ==> v == Parent(EntityId { id: 0, generation: 0 })
        &&& self.name matches Some(v) ==> v@ == Seq::<char>::empty()
        &&& self.color matches Some(v) ==> v == Color(Vec4::splat(ZERO))
        &&& self.camera matches Some(v) ==> v == Camera::standard()
        &&& self.player matches Some(v) ==> v == Player(0)
    }

    /// The row with `value` in the place of its kind. The mask is kept.
    pub open spec fn with(self, value: Component) -> Row {
        match value {
            Component::LocalTransform(v) => Row { local_transform: Some(v), ..self },
            Component::GlobalTransform(v) => Row { global_transform: Some(v), ..self },
            Component::Parent(v) => Row { parent: Some(v), ..self },
            Component::Name(v) => Row { name: Some(v), ..self },
            Component::Color(v) => Row { color: Some(v), ..self },
            Component::Camera(v) => Row { camera: Some(v), ..self },
            Component::ActiveCamera(v) => Row { active_camera: Some(v), ..self },
            Component::Player(v) => Row { player: Some(v), ..self },
        }
    }

    /// `self` is what `source` becomes in a table of kinds `mask`: values of
    /// kinds in `mask` that `source` carries are kept, kinds in `mask` that
    /// it lacks get their default, and all other values are dropped.
    pub open spec fn is_moved_from(&self, source: Row, mask: u32) -> bool {
        &&& self.mask == mask
        &&& self.wf()
        &&& source.local_transform matches Some(v) ==> has_kind(mask, LOCAL_TRANSFORM)
            ==> self.local_transform == Some(v)
        &&& source.global_transform matches Some(v) ==> has_kind(mask, GLOBAL_TRANSFORM)
            ==> self.global_transform == Some(v)
        &&& source.parent matches Some(v) ==> has_kind(mask, PARENT) ==> self.parent == Some(v)
        &&& source.name matches Some(v) ==> has_kind(mask, NAME) ==> self.name == Some(v)
        &&& source.color matches Some(v) ==> has_kind(mask, COLOR) ==> self.color == Some(v)
        &&& source.camera matches Some(v) ==> has_kind(mask, CAMERA) ==> self.camera == Some(v)
        &&& source.active_camera matches Some(v) ==> has_kind(mask, ACTIVE_CAMERA)
            ==> self.active_camera == Some(v)
        &&& source.player matches Some(v) ==> has_kind(mask, PLAYER) ==> self.player == Some(v)
        &&& source.local_transform is None ==> (self.local_transform matches Some(v) ==> v
            == Transform::identity())
        &&& source.global_transform is None ==> (self.global_transform matches Some(v) ==> v
            == Mat4::zero())
        &&& source.parent is None ==> (self.parent matches Some(v) ==> v == Parent(
            EntityId { id: 0, generation: 0 },
        ))
        &&& source.name is None ==> (self.name matches Some(v) ==> v@ == Seq::<char>::empty())
        &&& source.color is None ==> (self.color matches Some(v) ==> v == Color(
            Vec4::splat(ZERO),
        ))
        &&& source.camera is None ==> (self.camera matches Some(v) ==> v == Camera::standard())
        &&& source.player is None ==> (self.player matches Some(v) ==> v == Player(0))
    }

    /// `self` is the row of a freshly spawned entity of kinds `mask`.
    pub open spec fn is_fresh(&self, mask: u32) -> bool {
        &&& self.mask == mask
        &&& self.wf()
        &&& self.is_default()
    }

    /// The row of an entity that carries nothing.
    pub fn empty(mask: u32) -> (row: Row)
        ensures
            row == Row::spec_empty(mask),
    {
        Row {
            mask,
            local_transform: None,
            global_transform: None,
            parent: None,
            name: None,
            color: None,
            camera: None,
            active_camera: None,
            player: None,
        }
    }

    /// The row with mask `mask` and no value.
    pub open spec fn spec_empty(mask: u32) -> Row {
        Row {
            mask,
            local_transform: None,
            global_transform: None,
            parent: None,
            name: None,
            color: None,
            camera: None,
            active_camera: None,
            player: None,
        }
    }
}

} // verus!
