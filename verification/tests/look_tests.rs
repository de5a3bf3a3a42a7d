use fps_control::look::LookState;
use fps_control::look::MotionDelta;
use fps_control::look::Orientation;
use fps_control::look::camera_look;
use fps_control::look::millideg_to_urad;
use fps_control::math::Vec3;
use fps_control::scene::BodyKind;
use fps_control::scene::setup;

#[test]
fn millideg_conversion_quarter_turn() {
    assert_eq!(millideg_to_urad(90_000), 1_570_796);
    assert_eq!(millideg_to_urad(45_000), 785_398);
    assert_eq!(millideg_to_urad(200_000), 3_490_658);
    assert_eq!(millideg_to_urad(-200_000), -3_490_658);
    assert_eq!(millideg_to_urad(1_000), 17_453);
    assert_eq!(millideg_to_urad(0), 0);
}

#[test]
fn yaw_quarter_turn_scenario() {
    // A single (dx = 90 degrees, dy = 0) delta: the yaw component becomes
    // -90 degrees (the update subtracts), the pitch stays zero.
    let mut scene = setup();
    let mut state = LookState::new();
    let deltas = vec![MotionDelta { dx: millideg_to_urad(90_000), dy: 0 }];
    camera_look(&mut scene, &mut state, &deltas, true);
    assert_eq!(state.yaw, -1_570_796);
    assert_eq!(state.pitch, 0);
    let cam = scene.camera.unwrap();
    assert_eq!(cam.local.rotation, Orientation { yaw: -1_570_796, pitch: 0 });
    assert_eq!(cam.local.translation, Vec3 { x: 0, y: 0, z: 0 });
}

#[test]
fn pitch_clamps_at_limit_scenario() {
    // A single dy worth 200 degrees clamps the pitch at exactly 1.54 radians
    // (1_540_000 micro-radians), not at the converted 200-degree value.
    let mut scene = setup();
    let mut state = LookState::new();
    let down = vec![MotionDelta { dx: 0, dy: millideg_to_urad(200_000) }];
    camera_look(&mut scene, &mut state, &down, true);
    assert_eq!(state.pitch, -1_540_000);
    assert_eq!(state.yaw, 0);

    let mut scene2 = setup();
    let mut state2 = LookState::new();
    let up = vec![MotionDelta { dx: 0, dy: millideg_to_urad(-200_000) }];
    camera_look(&mut scene2, &mut state2, &up, true);
    assert_eq!(state2.pitch, 1_540_000);
}

#[test]
fn pitch_stays_in_range_for_extreme_sequences() {
    let mut scene = setup();
    let mut state = LookState::new();
    let deltas = vec![
        MotionDelta { dx: 0, dy: 1_000_000_000_000_000 },
        MotionDelta { dx: 123, dy: -1_000_000_000_000_000 },
        MotionDelta { dx: -77, dy: 999_999_999_999_999 },
        MotionDelta { dx: 0, dy: -3 },
    ];
    camera_look(&mut scene, &mut state, &deltas, true);
    assert!(state.pitch >= -1_540_000);
    assert!(state.pitch <= 1_540_000);
    assert_eq!(state.pitch, -1_539_997);
    assert_eq!(state.yaw, -46);
}

#[test]
fn empty_deltas_change_nothing() {
    let mut scene = setup();
    let mut state = LookState::new();
    let before_scene = scene;
    let before_state = state;
    let deltas: Vec<MotionDelta> = vec![];
    camera_look(&mut scene, &mut state, &deltas, true);
    assert_eq!(scene, before_scene);
    assert_eq!(state, before_state);
}

#[test]
fn released_button_discards_deltas() {
    let mut scene = setup();
    let mut state = LookState::new();
    let before_scene = scene;
    let deltas = vec![MotionDelta { dx: 1_570_796, dy: 1_570_796 }];
    camera_look(&mut scene, &mut state, &deltas, false);
    assert_eq!(scene, before_scene);
    assert_eq!(state, LookState { pitch: 0, yaw: 0 });
}

#[test]
fn missing_camera_skips_look() {
    let mut scene = setup();
    scene.camera = None;
    let before_scene = scene;
    let mut state = LookState::new();
    let deltas = vec![MotionDelta { dx: 1_570_796, dy: 700_000 }];
    camera_look(&mut scene, &mut state, &deltas, true);
    assert_eq!(scene, before_scene);
    assert_eq!(state, LookState { pitch: 0, yaw: 0 });
}

#[test]
fn deltas_apply_in_sequence() {
    // Two 45-degree deltas accumulate to the same quarter turn as one
    // 90-degree delta, and the camera holds the final orientation.
    let mut scene = setup();
    let mut state = LookState::new();
    let deltas = vec![
        MotionDelta { dx: 785_398, dy: 100_000 },
        MotionDelta { dx: 785_398, dy: -100_000 },
    ];
    camera_look(&mut scene, &mut state, &deltas, true);
    assert_eq!(state.yaw, -1_570_796);
    assert_eq!(state.pitch, 0);
    let cam = scene.camera.unwrap();
    assert_eq!(cam.local.rotation, Orientation { yaw: -1_570_796, pitch: 0 });
}

#[test]
fn initial_scene_layout() {
    let scene = setup();
    assert_eq!(scene.player.transform.translation, Vec3 { x: 0, y: 0, z: 0 });
    assert_eq!(scene.player.transform.rotation, Orientation { yaw: 0, pitch: 0 });
    let cam = scene.camera.unwrap();
    assert_eq!(cam.local.translation, Vec3 { x: 0, y: 0, z: 0 });
    assert_eq!(cam.local.rotation, Orientation { yaw: 0, pitch: 0 });
    assert_eq!(scene.ground.position, Vec3 { x: 0, y: 0, z: 0 });
    assert_eq!(scene.ground.half_extents, Vec3 { x: 50_000_000, y: 500_000, z: 50_000_000 });
    assert_eq!(scene.ground.body, BodyKind::Static);
    assert_eq!(scene.prop.position, Vec3 { x: 0, y: 10_000_000, z: -5_000_000 });
    assert_eq!(scene.prop.half_extents, Vec3 { x: 500_000, y: 500_000, z: 500_000 });
    assert_eq!(scene.prop.body, BodyKind::Dynamic);
}
