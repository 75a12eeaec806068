//! The camera query: which entity is the active camera, and which
//! matrices its frame is drawn with.
//!
//! A matrix is given by its construction and the numbers that go into it;
//! the shell evaluates it.

use vstd::prelude::*;
use crate::components::{
    has_kind, includes, Camera, OrthographicCamera, PerspectiveCamera, Projection, ACTIVE_CAMERA,
    CAMERA, GLOBAL_TRANSFORM, LOCAL_TRANSFORM,
};
use crate::entity::EntityId;
use crate::linear::{Quat, Vec3};
use crate::resources::Resources;
use crate::row::{ComponentRef, Row};
use crate::world::{get_component, query_first_entity, World};

verus! {

/// The kinds an entity must carry to be the active camera: the marker, a
/// camera and a local transform.
pub const ACTIVE_CAMERA_KINDS: u32 = ACTIVE_CAMERA | CAMERA | LOCAL_TRANSFORM;

/// A width over a height.
#[derive(Clone, Copy, Debug, PartialEq, Eq)]
pub enum AspectRatio {
    /// The number with this bit pattern.
    Fixed(u32),
    /// `width / height` of a viewport in pixels; `height` is at least 1.
    Viewport { width: u32, height: u32 },
}

/// A projection matrix, given by its construction.
#[derive(Clone, Copy, Debug, PartialEq, Eq)]
pub enum ProjectionMatrix {
    /// Right-handed perspective with depth from 0 to 1 and a far plane.
    Perspective { aspect_ratio: AspectRatio, y_fov_rad: u32, z_near: u32, z_far: u32 },
    /// Right-handed perspective with depth from 0 to 1 and no far plane.
    InfinitePerspective { aspect_ratio: AspectRatio, y_fov_rad: u32, z_near: u32 },
    /// Orthographic, from `-x_mag` to `x_mag` and from `-y_mag` to `y_mag`.
    Orthographic { x_mag: u32, y_mag: u32, z_near: u32, z_far: u32 },
}

/// A view matrix: the look-at matrix of an eye at `eye` that is turned by
/// `rotation`, normalized, from looking down the negative z axis with the
/// y axis up.
#[derive(Clone, Copy, Debug, PartialEq, Eq)]
pub struct ViewMatrix {
    pub eye: Vec3,
    pub rotation: Quat,
}

/// What a frame is drawn with. It holds nothing of the store.
#[derive(Clone, Copy, Debug, PartialEq, Eq)]
pub struct CameraMatrices {
    pub camera_position: Vec3,
    pub projection: ProjectionMatrix,
    pub view: ViewMatrix,
}

/// The aspect ratio of a viewport, with a height of zero taken as one.
pub open spec fn spec_viewport_aspect_ratio(width: u32, height: u32) -> AspectRatio {
    AspectRatio::Viewport {
        width,
        height: if height == 0 {
            1
        } else {
            height
        },
    }
}

/// The aspect ratio of the viewport in `resources`. A height of zero is
/// taken as one, so the ratio is always defined.
pub fn viewport_aspect_ratio(resources: &Resources) -> (ratio: AspectRatio)
    ensures
        ratio == spec_viewport_aspect_ratio(resources.viewport_width, resources.viewport_height),
{
    let height = if resources.viewport_height == 0 {
        1
    } else {
        resources.viewport_height
    };
    AspectRatio::Viewport { width: resources.viewport_width, height }
}

impl PerspectiveCamera {
    /// The matrix of this camera in a viewport of the given aspect ratio.
    pub open spec fn spec_matrix(&self, viewport_aspect_ratio: AspectRatio) -> ProjectionMatrix {
        let aspect_ratio = match self.aspect_ratio {
            Some(fixed) => AspectRatio::Fixed(fixed),
            None => viewport_aspect_ratio,
        };
        match self.z_far {
            Some(z_far) => ProjectionMatrix::Perspective {
                aspect_ratio,
                y_fov_rad: self.y_fov_rad,
                z_near: self.z_near,
                z_far,
            },
            None => ProjectionMatrix::InfinitePerspective {
                aspect_ratio,
                y_fov_rad: self.y_fov_rad,
                z_near: self.z_near,
            },
        }
    }

    /// The matrix of this camera in a viewport of the given aspect ratio.
    /// The camera's own aspect ratio, if it has one, wins over the
    /// viewport's. Without a far plane the projection is infinite.
    pub fn matrix(&self, viewport_aspect_ratio: AspectRatio) -> (matrix: ProjectionMatrix)
        ensures
            matrix == self.spec_matrix(viewport_aspect_ratio),
    {
        let aspect_ratio = if let Some(fixed) = self.aspect_ratio {
            AspectRatio::Fixed(fixed)
        } else {
            viewport_aspect_ratio
        };
        if let Some(z_far) = self.z_far {
            ProjectionMatrix::Perspective {
                aspect_ratio,
                y_fov_rad: self.y_fov_rad,
                z_near: self.z_near,
                z_far,
            }
        } else {
            ProjectionMatrix::InfinitePerspective {
                aspect_ratio,
                y_fov_rad: self.y_fov_rad,
                z_near: self.z_near,
            }
        }
    }
}

impl OrthographicCamera {
    /// The matrix of this camera.
    pub open spec fn spec_matrix(&self) -> ProjectionMatrix {
        ProjectionMatrix::Orthographic {
            x_mag: self.x_mag,
            y_mag: self.y_mag,
            z_near: self.z_near,
            z_far: self.z_far,
        }
    }

    /// The matrix of this camera. The viewport plays no part in it.
    pub fn matrix(&self) -> (matrix: ProjectionMatrix)
        ensures
            matrix == self.spec_matrix(),
    {
        ProjectionMatrix::Orthographic {
            x_mag: self.x_mag,
            y_mag: self.y_mag,
            z_near: self.z_near,
            z_far: self.z_far,
        }
    }
}

/// The projection matrix of `camera` in a viewport of the given aspect ratio.
pub open spec fn spec_projection_matrix(
    camera: Camera,
    aspect_ratio: AspectRatio,
) -> ProjectionMatrix {
    match camera.projection {
        Projection::Perspective(perspective) => perspective.spec_matrix(aspect_ratio),
        Projection::Orthographic(orthographic) => orthographic.spec_matrix(),
    }
}

/// The projection matrix of `camera` in a viewport of the given aspect ratio.
pub fn projection_matrix(camera: &Camera, aspect_ratio: AspectRatio) -> (matrix: ProjectionMatrix)
    ensures
        matrix == spec_projection_matrix(*camera, aspect_ratio),
{
    match &camera.projection {
        Projection::Perspective(camera) => camera.matrix(aspect_ratio),
        Projection::Orthographic(camera) => camera.matrix(),
    }
}

/// The matrices of a camera with the components of `row`, if the row
/// carries a camera, a local transform and a global transform. The
/// position is the translation column of the global transform; the view
/// turns by the rotation of the local transform.
pub open spec fn matrices_of(row: Row, resources: Resources) -> Option<CameraMatrices> {
    match (row.camera, row.local_transform, row.global_transform) {
        (Some(camera), Some(local_transform), Some(global_transform)) => {
            let position = global_transform.c3.spec_xyz();
            Some(
                CameraMatrices {
                    camera_position: position,
                    projection: spec_projection_matrix(
                        camera,
                        spec_viewport_aspect_ratio(
                            resources.viewport_width,
                            resources.viewport_height,
                        ),
                    ),
                    view: ViewMatrix { eye: position, rotation: local_transform.rotation },
                },
            )
        },
        _ => None,
    }
}

/// The active camera of `world` and its matrices: the first entity that
/// carries the three kinds of an active camera, if that entity also
/// carries a global transform.
pub open spec fn active_camera_matrices(world: World, resources: Resources) -> Option<
    (EntityId, CameraMatrices),
> {
    match world.first_match(ACTIVE_CAMERA_KINDS) {
        Some(entity) => match matrices_of(world.row_of(entity), resources) {
            Some(matrices) => Some((entity, matrices)),
            None => None,
        },
        None => None,
    }
}

/// Finds the active camera and derives its matrices for the viewport in
/// `resources`. There is no result if no entity carries an active-camera
/// marker, a camera and a local transform, or if the first such entity
/// lacks a global transform.
pub fn query_active_camera_matrices(world: &World, resources: &Resources) -> (found: Option<
    (EntityId, CameraMatrices),
>)
    requires
        world.wf(),
    ensures
        found == active_camera_matrices(*world, *resources),
        (forall|e: EntityId| #[trigger]
            world.contains(e) ==> !includes(world.row_of(e).mask, ACTIVE_CAMERA_KINDS))
            ==> found is None,
        found is Some <==> (world.first_match(ACTIVE_CAMERA_KINDS) matches Some(e) && has_kind(
            world.row_of(e).mask,
            GLOBAL_TRANSFORM,
        )),
        found matches Some((e, _)) ==> world.contains(e) && includes(
            world.row_of(e).mask,
            ACTIVE_CAMERA_KINDS,
        ),
{
    let Some(camera_entity) = query_first_entity(world, ACTIVE_CAMERA_KINDS) else {
        return None;
    };
    proof {
        let m = world.row_of(camera_entity).mask;
        world.lemma_table_of(camera_entity);
        assert(m & 32 != 0 && m & 1 != 0) by (bit_vector)
            requires
                m & (64u32 | 32u32 | 1u32) == (64u32 | 32u32 | 1u32),
        ;
    }
    let camera = match get_component(world, camera_entity, CAMERA) {
        Some(ComponentRef::Camera(camera)) => camera,
        _ => {
            return None;
        },
    };
    let local_transform = match get_component(world, camera_entity, LOCAL_TRANSFORM) {
        Some(ComponentRef::LocalTransform(local_transform)) => local_transform,
        _ => {
            return None;
        },
    };
    let global_transform = match get_component(world, camera_entity, GLOBAL_TRANSFORM) {
        Some(ComponentRef::GlobalTransform(global_transform)) => global_transform,
        _ => {
            return None;
        },
    };
    let camera_translation = global_transform.c3.xyz();
    let aspect_ratio = viewport_aspect_ratio(resources);
    Some(
        (
            camera_entity,
            CameraMatrices {
                camera_position: camera_translation,
                projection: projection_matrix(camera, aspect_ratio),
                view: ViewMatrix { eye: camera_translation, rotation: local_transform.rotation },
            },
        ),
    )
}

} // verus!
