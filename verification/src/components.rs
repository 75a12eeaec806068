//! The component kinds an entity can carry, and their default values.

use vstd::prelude::*;
use crate::entity::EntityId;
use crate::linear::{Mat4, Quat, Vec2, Vec3, Vec4, ONE, ZERO};

verus! {

/// Kind bit of [`LocalTransform`].
pub const LOCAL_TRANSFORM: u32 = 1;

/// Kind bit of [`GlobalTransform`].
pub const GLOBAL_TRANSFORM: u32 = 2;

/// Kind bit of [`Parent`].
pub const PARENT: u32 = 4;

/// Kind bit of [`Name`].
pub const NAME: u32 = 8;

/// Kind bit of [`Color`].
pub const COLOR: u32 = 16;

/// Kind bit of [`Camera`].
pub const CAMERA: u32 = 32;

/// Kind bit of [`ActiveCamera`].
pub const ACTIVE_CAMERA: u32 = 64;

/// Kind bit of [`Player`].
pub const PLAYER: u32 = 128;

/// All eight kind bits.
pub const ALL_COMPONENTS: u32 = 255;

/// Bit pattern of a quarter turn in radians, the default vertical field of view.
pub const QUARTER_TURN: u32 = 0x3FC9_0FDB;

/// Bit pattern of `0.01`, the default near plane.
pub const DEFAULT_Z_NEAR: u32 = 0x3C23_D70A;

/// Whether `mask` holds at least one bit of `kind`.
pub open spec fn has_kind(mask: u32, kind: u32) -> bool {
    mask & kind != 0
}

/// Whether `kind` is one of the eight kind bits.
pub open spec fn is_kind(kind: u32) -> bool {
    kind == LOCAL_TRANSFORM || kind == GLOBAL_TRANSFORM || kind == PARENT || kind == NAME || kind
        == COLOR || kind == CAMERA || kind == ACTIVE_CAMERA || kind == PLAYER
}

/// Whether `mask` holds every bit of `required`.
pub open spec fn includes(mask: u32, required: u32) -> bool {
    mask & required == required
}

/// The world matrix of an entity, derived from its local transform.
pub type GlobalTransform = Mat4;

/// The transform of an entity relative to its parent.
pub type LocalTransform = Transform;

/// Translation, rotation and scale.
#[derive(Clone, Copy, Debug, PartialEq, Eq)]
pub struct Transform {
    pub translation: Vec3,
    pub rotation: Quat,
    pub scale: Vec3,
}

impl Transform {
    /// No translation, no rotation, scale one.
    pub open spec fn identity() -> Transform {
        Transform {
            translation: Vec3::splat(ZERO),
            rotation: Quat::identity(),
            scale: Vec3::splat(ONE),
        }
    }
}

impl Default for Transform {
    fn default() -> (t: Self)
        ensures
            t == Transform::identity(),
    {
        Transform {
            translation: Vec3 { x: ZERO, y: ZERO, z: ZERO },
            rotation: Quat { i: ZERO, j: ZERO, k: ZERO, w: ONE },
            scale: Vec3 { x: ONE, y: ONE, z: ONE },
        }
    }
}

/// A link to the entity one level up in the hierarchy. It owns nothing.
#[derive(Clone, Copy, Debug, PartialEq, Eq)]
pub struct Parent(pub EntityId);

impl Default for Parent {
    fn default() -> (p: Self)
        ensures
            p == Parent(EntityId { id: 0, generation: 0 }),
    {
        Parent(EntityId { id: 0, generation: 0 })
    }
}

/// A text label.
#[derive(Debug, PartialEq, Eq)]
pub struct Name(pub String);

impl Clone for Name {
    fn clone(&self) -> (copy: Self)
        ensures
            copy == *self,
    {
        Name(self.0.clone())
    }
}

impl View for Name {
    type V = Seq<char>;

    open spec fn view(&self) -> Seq<char> {
        self.0@
    }
}

impl Default for Name {
    fn default() -> (n: Self)
        ensures
            n@ == Seq::<char>::empty(),
    {
        Name(String::new())
    }
}

/// Red, green, blue and alpha.
#[derive(Clone, Copy, Debug, PartialEq, Eq)]
pub struct Color(pub Vec4);

impl Default for Color {
    fn default() -> (c: Self)
        ensures
            c == Color(Vec4::splat(ZERO)),
    {
        Color(Vec4 { x: ZERO, y: ZERO, z: ZERO, w: ZERO })
    }
}

/// The slot number of a player.
#[derive(Clone, Copy, Debug, PartialEq, Eq)]
pub struct Player(pub u8);

impl Default for Player {
    fn default() -> (p: Self)
        ensures
            p == Player(0),
    {
        Player(0)
    }
}

/// Marks the camera whose matrices are used for the frame.
#[derive(Clone, Copy, Debug, PartialEq, Eq)]
pub struct ActiveCamera;

impl Default for ActiveCamera {
    fn default() -> (a: Self)
        ensures
            a == ActiveCamera,
    {
        ActiveCamera
    }
}

/// A perspective projection. Without `aspect_ratio` it follows the
/// viewport; without `z_far` it has no far plane.
#[derive(Clone, Copy, Debug, PartialEq, Eq)]
pub struct PerspectiveCamera {
    pub aspect_ratio: Option<u32>,
    pub y_fov_rad: u32,
    pub z_far: Option<u32>,
    pub z_near: u32,
}

impl PerspectiveCamera {
    /// A quarter-turn field of view, near plane at `0.01`, no far plane,
    /// the viewport's aspect ratio.
    pub open spec fn standard() -> PerspectiveCamera {
        PerspectiveCamera {
            aspect_ratio: None,
            y_fov_rad: QUARTER_TURN,
            z_far: None,
            z_near: DEFAULT_Z_NEAR,
        }
    }
}

impl Default for PerspectiveCamera {
    fn default() -> (c: Self)
        ensures
            c == PerspectiveCamera::standard(),
    {
        PerspectiveCamera {
            aspect_ratio: None,
            y_fov_rad: QUARTER_TURN,
            z_far: None,
            z_near: DEFAULT_Z_NEAR,
        }
    }
}

/// An orthographic projection of half-width `x_mag` and half-height `y_mag`.
#[derive(Clone, Copy, Debug, PartialEq, Eq)]
pub struct OrthographicCamera {
    pub x_mag: u32,
    pub y_mag: u32,
    pub z_far: u32,
    pub z_near: u32,
}

impl Default for OrthographicCamera {
    fn default() -> (c: Self)
        ensures
            c == (OrthographicCamera { x_mag: ZERO, y_mag: ZERO, z_far: ZERO, z_near: ZERO }),
    {
        OrthographicCamera { x_mag: ZERO, y_mag: ZERO, z_far: ZERO, z_near: ZERO }
    }
}

/// How a camera projects the scene.
#[derive(Clone, Copy, Debug, PartialEq, Eq)]
pub enum Projection {
    Perspective(PerspectiveCamera),
    Orthographic(OrthographicCamera),
}

impl Default for Projection {
    fn default() -> (p: Self)
        ensures
            p == Projection::Perspective(PerspectiveCamera::standard()),
    {
        Projection::Perspective(PerspectiveCamera::default())
    }
}

/// A projection and the pointer sensitivity along both axes.
#[derive(Clone, Copy, Debug, PartialEq, Eq)]
pub struct Camera {
    pub projection: Projection,
    pub sensitivity: Vec2,
}

impl Camera {
    /// The standard perspective projection with sensitivity one.
    pub open spec fn standard() -> Camera {
        Camera {
            projection: Projection::Perspective(PerspectiveCamera::standard()),
            sensitivity: Vec2::splat(ONE),
        }
    }
}

impl Default for Camera {
    fn default() -> (c: Self)
        ensures
            c == Camera::standard(),
    {
        Camera { projection: Projection::default(), sensitivity: Vec2 { x: ONE, y: ONE } }
    }
}

} // verus!
