use raytracer::camera::Camera;
use raytracer::vec3::Vec3;

const S: i64 = 65536;

#[test]
fn camera_to_world_identity() {
    let cam = Camera::new(Vec3::new(0, 0, 0), Vec3::new(0, 0, 0), 60 * S, (800, 600));
    let p_cam = Vec3::new(1 * S, 2 * S, 3 * S);
    let p_world = cam.camera_to_world(p_cam);
    assert_eq!(p_world, Vec3::new(1 * S, 2 * S, 3 * S));
}

#[test]
fn camera_to_world_translation() {
    let cam = Camera::new(
        Vec3::new(10 * S, -2 * S, 5 * S),
        Vec3::new(0, 0, 0),
        45 * S,
        (320, 240),
    );
    let origin_cam = Vec3::new(0, 0, 0);
    let world = cam.camera_to_world(origin_cam);
    assert_eq!(world, Vec3::new(10 * S, -2 * S, 5 * S));
}

#[test]
fn world_to_camera_translation() {
    let cam = Camera::new(
        Vec3::new(-3 * S, 4 * S, -7 * S),
        Vec3::new(0, 0, 0),
        30 * S,
        (100, 100),
    );
    let world_point = Vec3::new(-3 * S, 4 * S, -7 * S); // camera position
    let p_cam = cam.world_to_camera(world_point);
    assert_eq!(p_cam, Vec3::new(0, 0, 0));
}

#[test]
fn round_trip_camera_world_camera() {
    let cam = Camera::new(
        Vec3::new(5 * S, -1 * S, 163840), // z = 2.5 units
        Vec3::new(0, 0, 0),
        75 * S,
        (1920, 1080),
    );
    let p_cam = Vec3::new(1 * S, -1 * S, 2 * S);
    let p_world = cam.camera_to_world(p_cam);
    let p_cam2 = cam.world_to_camera(p_world);
    assert_eq!(p_cam2, p_cam);
}

#[test]
fn set_resolution_replaces_only_resolution() {
    let mut cam = Camera::new(Vec3::new(1 * S, 2 * S, 3 * S), Vec3::new(0, 0, 0), 60 * S, (10, 10));
    cam.set_resolution((640, 480));
    assert_eq!(cam.resolution, (640, 480));
    assert_eq!(cam.position, Vec3::new(1 * S, 2 * S, 3 * S));
    assert_eq!(cam.fov, 60 * S);
}
