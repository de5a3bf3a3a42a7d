use fps_control::math::Mat3;
use fps_control::math::Vec3;
use fps_control::math::div_trunc;
use fps_control::math::isqrt;
use fps_control::movement::Key;
use fps_control::movement::held_direction;
use fps_control::movement::normalize_or_zero;
use fps_control::movement::player_move;
use fps_control::movement::player_move_planar;
use fps_control::scene::setup;

#[test]
fn isqrt_exact_values() {
    assert_eq!(isqrt(0), 0);
    assert_eq!(isqrt(1), 1);
    assert_eq!(isqrt(2), 1);
    assert_eq!(isqrt(3), 1);
    assert_eq!(isqrt(4), 2);
    assert_eq!(isqrt(999_999), 999);
    assert_eq!(isqrt(1_000_000), 1000);
    assert_eq!(isqrt(1_000_000_000_000), 1_000_000);
    assert_eq!(isqrt(u64::MAX), 4_294_967_295);
}

#[test]
fn div_trunc_rounds_toward_zero() {
    assert_eq!(div_trunc(7, 2), 3);
    assert_eq!(div_trunc(-7, 2), -3);
    assert_eq!(div_trunc(0, 5), 0);
    assert_eq!(div_trunc(-1, 1_000_000), 0);
}

#[test]
fn held_direction_with_identity_camera() {
    let m = Mat3::identity();
    assert_eq!(held_direction(&vec![Key::Comma], &m), Vec3 { x: 0, y: 0, z: -1_000_000 });
    assert_eq!(held_direction(&vec![Key::O], &m), Vec3 { x: 0, y: 0, z: 1_000_000 });
    assert_eq!(held_direction(&vec![Key::E], &m), Vec3 { x: 1_000_000, y: 0, z: 0 });
    assert_eq!(held_direction(&vec![Key::A], &m), Vec3 { x: -1_000_000, y: 0, z: 0 });
    assert_eq!(held_direction(&vec![Key::Other], &m), Vec3 { x: 0, y: 0, z: 0 });
    assert_eq!(held_direction(&vec![], &m), Vec3 { x: 0, y: 0, z: 0 });
    assert_eq!(
        held_direction(&vec![Key::Comma, Key::Comma], &m),
        Vec3 { x: 0, y: 0, z: -2_000_000 }
    );
}

#[test]
fn opposite_keys_cancel_to_zero_velocity() {
    let m = Mat3::identity();
    let dir = held_direction(&vec![Key::Comma, Key::O], &m);
    assert_eq!(dir, Vec3 { x: 0, y: 0, z: 0 });
    assert_eq!(normalize_or_zero(&dir), Vec3 { x: 0, y: 0, z: 0 });
    let dir2 = held_direction(&vec![Key::A, Key::E, Key::Comma, Key::O], &m);
    assert_eq!(dir2, Vec3 { x: 0, y: 0, z: 0 });
}

#[test]
fn normalize_exact_on_aligned_vectors() {
    assert_eq!(normalize_or_zero(&Vec3 { x: 0, y: 0, z: 0 }), Vec3 { x: 0, y: 0, z: 0 });
    assert_eq!(
        normalize_or_zero(&Vec3 { x: 3_000_000, y: 4_000_000, z: 0 }),
        Vec3 { x: 600_000, y: 800_000, z: 0 }
    );
    assert_eq!(
        normalize_or_zero(&Vec3 { x: 0, y: 0, z: -2_000_000 }),
        Vec3 { x: 0, y: 0, z: -1_000_000 }
    );
}

#[test]
fn normalized_diagonal_is_near_unit_length() {
    let r = normalize_or_zero(&Vec3 { x: 1_000_000, y: 0, z: -1_000_000 });
    assert_eq!(r, Vec3 { x: 707_107, y: 0, z: -707_107 });
    let s2 = r.x * r.x + r.y * r.y + r.z * r.z;
    let unit_sq: i64 = 1_000_000_000_000;
    assert!(s2 >= unit_sq - 6_000_000);
    assert!(s2 <= unit_sq + 2_000_000);
}

#[test]
fn forward_key_moves_fifty_units_per_second() {
    // With an identity camera rotation, holding forward for one second moves
    // the player by exactly (0, 0, -50) world units: local equals global.
    let mut scene = setup();
    player_move(&mut scene, &vec![Key::Comma], &Mat3::identity(), 1_000_000);
    assert_eq!(scene.player.transform.translation, Vec3 { x: 0, y: 0, z: -50_000_000 });
}

#[test]
fn planar_variant_moves_one_unit_per_second() {
    let mut scene = setup();
    player_move_planar(&mut scene, &vec![Key::Comma], &Mat3::identity(), 1_000_000);
    assert_eq!(scene.player.transform.translation, Vec3 { x: 0, y: 0, z: -1_000_000 });
}

#[test]
fn no_keys_no_motion_for_any_elapsed_time() {
    let mut scene = setup();
    let before = scene;
    player_move(&mut scene, &vec![], &Mat3::identity(), 123_456);
    assert_eq!(scene, before);
    player_move(&mut scene, &vec![Key::Other, Key::Other], &Mat3::identity(), 999_999_999);
    assert_eq!(scene, before);
    player_move_planar(&mut scene, &vec![Key::Other], &Mat3::identity(), 1_000_000);
    assert_eq!(scene, before);
}

#[test]
fn opposite_keys_no_motion() {
    let mut scene = setup();
    let before = scene;
    player_move(&mut scene, &vec![Key::Comma, Key::O], &Mat3::identity(), 1_000_000);
    assert_eq!(scene, before);
    player_move(&mut scene, &vec![Key::A, Key::E], &Mat3::identity(), 1_000_000);
    assert_eq!(scene, before);
}

#[test]
fn missing_camera_skips_move() {
    let mut scene = setup();
    scene.camera = None;
    let before = scene;
    player_move(&mut scene, &vec![Key::Comma], &Mat3::identity(), 1_000_000);
    assert_eq!(scene, before);
}

#[test]
fn pitched_camera_tilts_motion() {
    // A camera pitched down 45 degrees: its rotation carries the forward
    // motion into the ground, the variant's intentional behaviour. The
    // matrix is the fixed-point rotation about X by -45 degrees.
    let m = Mat3 {
        m00: 1_000_000,
        m01: 0,
        m02: 0,
        m10: 0,
        m11: 707_107,
        m12: 707_107,
        m20: 0,
        m21: -707_107,
        m22: 707_107,
    };
    let dir = held_direction(&vec![Key::Comma], &m);
    assert_eq!(dir, Vec3 { x: 0, y: 0, z: -707_107 });
    let vel = normalize_or_zero(&dir);
    assert_eq!(vel, Vec3 { x: 0, y: 0, z: -1_000_000 });
    let mut scene = setup();
    player_move(&mut scene, &vec![Key::Comma], &m, 1_000_000);
    let t = scene.player.transform.translation;
    assert_eq!(t.x, 0);
    assert_eq!(t.y, -35_355_350);
    assert_eq!(t.z, -35_355_350);
}
