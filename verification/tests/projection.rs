use tsunami_run::geometry::{Camera, Vec2, Vec3};

fn camera() -> Camera {
    Camera { near_distance: 10_000, far_distance: 0, camera_near: 1_000, road_ratio: 500 }
}

#[test]
fn scale_is_the_perspective_divide() {
    let cam = camera();
    // camera_near / (near + camera_near - distance) = 1.0 / 6.0
    let pr = cam.project(Vec3 { x: 0, y: 5000, z: 0 }).unwrap();
    assert_eq!(pr.scale, 166);
}

#[test]
fn scale_grows_toward_the_camera_plane() {
    let cam = camera();
    let mut last = 0;
    for d in [0i64, 4000, 8000, 10_000, 10_900] {
        let pr = cam.project(Vec3 { x: 0, y: d, z: 0 }).unwrap();
        assert!(pr.scale >= last, "scale fell back at distance {d}");
        last = pr.scale;
    }
    // strictly, between two distances with distinct denominators
    let near = cam.project(Vec3 { x: 0, y: 8000, z: 0 }).unwrap();
    let far = cam.project(Vec3 { x: 0, y: 5000, z: 0 }).unwrap();
    assert!(far.scale < near.scale);
}

#[test]
fn points_at_or_past_the_plane_are_skipped() {
    let cam = camera();
    assert!(cam.project(Vec3 { x: 0, y: 11_000, z: 0 }).is_none());
    assert!(cam.project(Vec3 { x: 0, y: 12_000, z: 0 }).is_none());
    assert!(cam.project(Vec3 { x: 0, y: 10_999, z: 0 }).is_some());
}

#[test]
fn screen_mapping_is_exact() {
    let cam = camera();
    // at the near edge the scale is exactly one
    let pr = cam.project(Vec3 { x: 1000, y: 10_000, z: 0 }).unwrap();
    assert_eq!(pr.scale, 1000);
    // lane * scale * road_ratio = 1.0 * 1.0 * 0.5
    assert_eq!(pr.screen, Vec2 { x: 500, y: 1000 });
    // height shifts the screen y down by height * scale
    let raised = cam.project(Vec3 { x: 1000, y: 10_000, z: 400 }).unwrap();
    assert_eq!(raised.screen.y, 600);
}

#[test]
fn pixel_mapping_is_exact() {
    let cam = camera();
    let (pos, scale) = cam.to_screen(1000, 1000, Vec3 { x: 0, y: 10_000, z: 0 }).unwrap();
    assert_eq!(scale, 1000);
    // centred laterally: fb_w * 500 milli-pixels
    assert_eq!(pos.x, 500_000);
    // screen y of 1.0 lands exactly on the horizon line
    assert_eq!(pos.y, 0);
    let (pos2, _) = cam.to_screen(1000, 1000, Vec3 { x: 0, y: 5000, z: 0 }).unwrap();
    // scale 166 -> 0.8 * (1 - 0.166) of the viewport height, in milli-pixels
    assert_eq!(pos2.y, 800_000 * (1000 - 166) / 1000);
}

#[test]
fn look_at_moves_the_window() {
    let mut cam = camera();
    cam.look_at(25_000);
    assert_eq!(cam.near_distance, 27_000);
    assert_eq!(cam.far_distance, 15_000);
    assert_eq!(cam.camera_near, 1_000);
    assert_eq!(cam.road_ratio, 500);
}
