use spree::components::{
    Camera, OrthographicCamera, PerspectiveCamera, Projection, Transform, ACTIVE_CAMERA, CAMERA,
    GLOBAL_TRANSFORM, LOCAL_TRANSFORM, PLAYER,
};
use spree::linear::{Mat4, Quat, Vec2, Vec3, Vec4};
use spree::queries::{
    projection_matrix, query_active_camera_matrices, viewport_aspect_ratio, AspectRatio,
    CameraMatrices, ProjectionMatrix, ViewMatrix, ACTIVE_CAMERA_KINDS,
};
use spree::resources::Resources;
use spree::row::Component;
use spree::world::{add_components, despawn, set_component, spawn_entities, World};

fn bits(value: f32) -> u32 {
    value.to_bits()
}

fn ratio(aspect_ratio: AspectRatio) -> f32 {
    match aspect_ratio {
        AspectRatio::Fixed(value) => f32::from_bits(value),
        AspectRatio::Viewport { width, height } => width as f32 / height as f32,
    }
}

fn evaluate(matrix: ProjectionMatrix) -> nalgebra_glm::Mat4 {
    match matrix {
        ProjectionMatrix::Perspective { aspect_ratio, y_fov_rad, z_near, z_far } => {
            nalgebra_glm::perspective_zo(
                ratio(aspect_ratio),
                f32::from_bits(y_fov_rad),
                f32::from_bits(z_near),
                f32::from_bits(z_far),
            )
        }
        ProjectionMatrix::InfinitePerspective { aspect_ratio, y_fov_rad, z_near } => {
            nalgebra_glm::infinite_perspective_rh_zo(
                ratio(aspect_ratio),
                f32::from_bits(y_fov_rad),
                f32::from_bits(z_near),
            )
        }
        ProjectionMatrix::Orthographic { x_mag, y_mag, z_near, z_far } => nalgebra_glm::ortho(
            -f32::from_bits(x_mag),
            f32::from_bits(x_mag),
            -f32::from_bits(y_mag),
            f32::from_bits(y_mag),
            f32::from_bits(z_near),
            f32::from_bits(z_far),
        ),
    }
}

fn viewport(width: u32, height: u32) -> Resources {
    let mut resources = Resources::default();
    resources.viewport_width = width;
    resources.viewport_height = height;
    resources
}

#[test]
fn default_camera_is_a_quarter_turn_perspective_without_far_plane() {
    let camera = PerspectiveCamera::default();
    assert_eq!(camera.aspect_ratio, None);
    assert_eq!(camera.z_far, None);
    assert_eq!(f32::from_bits(camera.y_fov_rad), 90_f32.to_radians());
    assert_eq!(f32::from_bits(camera.z_near), 0.01);
    assert_eq!(Projection::default(), Projection::Perspective(camera));
    assert_eq!(
        Camera::default(),
        Camera {
            projection: Projection::Perspective(camera),
            sensitivity: Vec2 { x: bits(1.0), y: bits(1.0) },
        }
    );
    assert_eq!(
        OrthographicCamera::default(),
        OrthographicCamera { x_mag: 0, y_mag: 0, z_far: 0, z_near: 0 }
    );
}

#[test]
fn no_active_camera_without_the_three_kinds() {
    let mut world = World::new();
    let resources = viewport(1600, 900);
    assert_eq!(query_active_camera_matrices(&world, &resources), None);
    spawn_entities(&mut world, CAMERA | LOCAL_TRANSFORM | GLOBAL_TRANSFORM, 1);
    spawn_entities(&mut world, ACTIVE_CAMERA | CAMERA | GLOBAL_TRANSFORM, 1);
    spawn_entities(&mut world, ACTIVE_CAMERA | LOCAL_TRANSFORM | GLOBAL_TRANSFORM, 1);
    assert_eq!(query_active_camera_matrices(&world, &resources), None);
}

#[test]
fn active_camera_is_found_once_it_exists() {
    let mut world = World::new();
    let resources = viewport(1600, 900);
    spawn_entities(&mut world, CAMERA | LOCAL_TRANSFORM | GLOBAL_TRANSFORM, 2);
    let entity =
        spawn_entities(&mut world, ACTIVE_CAMERA_KINDS | GLOBAL_TRANSFORM | PLAYER, 1)[0];
    let zero = Vec3 { x: 0, y: 0, z: 0 };
    assert_eq!(
        query_active_camera_matrices(&world, &resources),
        Some((
            entity,
            CameraMatrices {
                camera_position: zero,
                projection: ProjectionMatrix::InfinitePerspective {
                    aspect_ratio: AspectRatio::Viewport { width: 1600, height: 900 },
                    y_fov_rad: bits(90_f32.to_radians()),
                    z_near: bits(0.01),
                },
                view: ViewMatrix {
                    eye: zero,
                    rotation: Quat { i: 0, j: 0, k: 0, w: bits(1.0) },
                },
            }
        ))
    );
    assert!(despawn(&mut world, entity));
    assert_eq!(query_active_camera_matrices(&world, &resources), None);
}

#[test]
fn active_camera_without_a_global_transform_gives_nothing() {
    let mut world = World::new();
    let resources = viewport(800, 600);
    let entity = spawn_entities(&mut world, ACTIVE_CAMERA_KINDS | PLAYER, 1)[0];
    assert_eq!(query_active_camera_matrices(&world, &resources), None);
    assert!(add_components(&mut world, entity, GLOBAL_TRANSFORM));
    assert!(query_active_camera_matrices(&world, &resources).is_some());
}

#[test]
fn camera_position_is_the_translation_column() {
    let mut world = World::new();
    let resources = viewport(640, 480);
    let entity = spawn_entities(&mut world, ACTIVE_CAMERA_KINDS | GLOBAL_TRANSFORM, 1)[0];
    let unit = |x: f32, y: f32, z: f32, w: f32| Vec4 { x: bits(x), y: bits(y), z: bits(z), w: bits(w) };
    let global = Mat4 {
        c0: unit(1.0, 0.0, 0.0, 0.0),
        c1: unit(0.0, 1.0, 0.0, 0.0),
        c2: unit(0.0, 0.0, 1.0, 0.0),
        c3: unit(3.0, -4.0, 5.5, 1.0),
    };
    let rotation = Quat { i: bits(0.0), j: bits(2.0), k: bits(0.0), w: bits(2.0) };
    let local = Transform {
        translation: Vec3 { x: bits(9.0), y: bits(9.0), z: bits(9.0) },
        rotation,
        scale: Vec3 { x: bits(1.0), y: bits(1.0), z: bits(1.0) },
    };
    let camera = Camera {
        projection: Projection::Orthographic(OrthographicCamera {
            x_mag: bits(4.0),
            y_mag: bits(3.0),
            z_far: bits(50.0),
            z_near: bits(0.5),
        }),
        sensitivity: Vec2 { x: bits(1.0), y: bits(1.0) },
    };
    assert!(set_component(&mut world, entity, Component::GlobalTransform(global)));
    assert!(set_component(&mut world, entity, Component::LocalTransform(local)));
    assert!(set_component(&mut world, entity, Component::Camera(camera)));
    let position = Vec3 { x: bits(3.0), y: bits(-4.0), z: bits(5.5) };
    assert_eq!(
        query_active_camera_matrices(&world, &resources),
        Some((
            entity,
            CameraMatrices {
                camera_position: position,
                projection: ProjectionMatrix::Orthographic {
                    x_mag: bits(4.0),
                    y_mag: bits(3.0),
                    z_near: bits(0.5),
                    z_far: bits(50.0),
                },
                view: ViewMatrix { eye: position, rotation },
            }
        ))
    );
}

#[test]
fn viewport_of_height_zero_counts_as_height_one() {
    assert_eq!(
        viewport_aspect_ratio(&viewport(1920, 0)),
        AspectRatio::Viewport { width: 1920, height: 1 }
    );
    assert_eq!(
        viewport_aspect_ratio(&viewport(0, 0)),
        AspectRatio::Viewport { width: 0, height: 1 }
    );
    assert_eq!(
        viewport_aspect_ratio(&viewport(1920, 1080)),
        AspectRatio::Viewport { width: 1920, height: 1080 }
    );
    assert_eq!(ratio(viewport_aspect_ratio(&viewport(1920, 0))), 1920.0);
}

#[test]
fn own_aspect_ratio_wins_over_the_viewport() {
    let camera = PerspectiveCamera {
        aspect_ratio: Some(bits(2.0)),
        y_fov_rad: bits(1.0),
        z_far: Some(bits(100.0)),
        z_near: bits(0.1),
    };
    assert_eq!(
        camera.matrix(AspectRatio::Viewport { width: 4, height: 3 }),
        ProjectionMatrix::Perspective {
            aspect_ratio: AspectRatio::Fixed(bits(2.0)),
            y_fov_rad: bits(1.0),
            z_near: bits(0.1),
            z_far: bits(100.0),
        }
    );
    let free = PerspectiveCamera { aspect_ratio: None, ..camera };
    assert_eq!(
        free.matrix(AspectRatio::Viewport { width: 4, height: 3 }),
        ProjectionMatrix::Perspective {
            aspect_ratio: AspectRatio::Viewport { width: 4, height: 3 },
            y_fov_rad: bits(1.0),
            z_near: bits(0.1),
            z_far: bits(100.0),
        }
    );
}

#[test]
fn orthographic_matrix_ignores_the_viewport() {
    let camera = OrthographicCamera {
        x_mag: bits(2.0),
        y_mag: bits(1.0),
        z_far: bits(10.0),
        z_near: bits(1.0),
    };
    let expected = ProjectionMatrix::Orthographic {
        x_mag: bits(2.0),
        y_mag: bits(1.0),
        z_near: bits(1.0),
        z_far: bits(10.0),
    };
    assert_eq!(camera.matrix(), expected);
    let as_component =
        Camera { projection: Projection::Orthographic(camera), sensitivity: Vec2 { x: 0, y: 0 } };
    assert_eq!(projection_matrix(&as_component, AspectRatio::Fixed(bits(7.0))), expected);
    let numbers = evaluate(expected);
    assert_eq!(numbers[(0, 0)], 0.5);
    assert_eq!(numbers[(1, 1)], 1.0);
}

#[test]
fn finite_and_infinite_perspective_differ() {
    let sixteen_by_nine = AspectRatio::Viewport { width: 1600, height: 900 };
    let finite = PerspectiveCamera {
        aspect_ratio: None,
        y_fov_rad: bits(90_f32.to_radians()),
        z_far: Some(bits(100.0)),
        z_near: bits(0.01),
    };
    let infinite = PerspectiveCamera { z_far: None, ..finite };
    let finite_matrix = evaluate(finite.matrix(sixteen_by_nine));
    let infinite_matrix = evaluate(infinite.matrix(sixteen_by_nine));
    assert!(finite_matrix.iter().all(|entry| entry.is_finite()));
    assert!(infinite_matrix.iter().all(|entry| entry.is_finite()));
    assert_ne!(finite_matrix, infinite_matrix);
    assert_eq!(finite_matrix[(0, 0)], infinite_matrix[(0, 0)]);
    assert_eq!(finite_matrix[(1, 1)], infinite_matrix[(1, 1)]);
    assert_ne!(finite_matrix[(2, 2)], infinite_matrix[(2, 2)]);
    assert_eq!(infinite_matrix[(2, 2)], -1.0);
    assert!((finite_matrix[(1, 1)] - 1.0).abs() < 1e-6);
    assert!((finite_matrix[(0, 0)] - 0.5625).abs() < 1e-6);
}
