use fps_control::look::LookState;
use fps_control::look::MotionDelta;
use fps_control::look::Orientation;
use fps_control::math::Mat3;
use fps_control::math::Vec3;
use fps_control::scene::FrameInput;
use fps_control::scene::frame_update;
use fps_control::scene::setup;

#[test]
fn one_frame_looks_then_moves() {
    let mut scene = setup();
    let mut state = LookState::new();
    let input = FrameInput {
        deltas: vec![MotionDelta { dx: 1_570_796, dy: 0 }],
        keys: vec![fps_control::movement::Key::Comma],
        button_held: true,
        cam_world: Mat3::identity(),
        dt_micros: 1_000_000,
    };
    frame_update(&mut scene, &mut state, &input);
    assert_eq!(state.yaw, -1_570_796);
    assert_eq!(state.pitch, 0);
    let cam = scene.camera.unwrap();
    assert_eq!(cam.local.rotation, Orientation { yaw: -1_570_796, pitch: 0 });
    assert_eq!(scene.player.transform.translation, Vec3 { x: 0, y: 0, z: -50_000_000 });
}

#[test]
fn movement_is_not_gated_by_the_button() {
    let mut scene = setup();
    let mut state = LookState::new();
    let input = FrameInput {
        deltas: vec![MotionDelta { dx: 1_570_796, dy: 0 }],
        keys: vec![fps_control::movement::Key::Comma],
        button_held: false,
        cam_world: Mat3::identity(),
        dt_micros: 1_000_000,
    };
    frame_update(&mut scene, &mut state, &input);
    // The look update is discarded without the button...
    assert_eq!(state, LookState { pitch: 0, yaw: 0 });
    let cam = scene.camera.unwrap();
    assert_eq!(cam.local.rotation, Orientation { yaw: 0, pitch: 0 });
    // ...but the move controller still runs.
    assert_eq!(scene.player.transform.translation, Vec3 { x: 0, y: 0, z: -50_000_000 });
}
