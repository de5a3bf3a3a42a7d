//! The scene's entities and their one-time assembly.
//!
//! The host engine owns rendering and physics; this model keeps, per entity
//! kind, exactly the plain data the controllers read and write. There is
//! exactly one player, by construction; its camera child is optional, and
//! both controllers silently skip a frame when it is missing.

use vstd::prelude::*;
use crate::look::LookState;
use crate::look::MotionDelta;
use crate::look::Orientation;
use crate::look::camera_look;
use crate::look::deltas_ok;
use crate::look::look_after;
use crate::math::Mat3;
use crate::math::Vec3;
use crate::movement::DT_MAX;
use crate::movement::KEYS_MAX;
use crate::movement::Key;
use crate::movement::POS_LIMIT;
use crate::movement::move_applied;
use crate::movement::player_move;

verus! {

/// An entity's transform relative to its parent: a fixed-point position and
/// a yaw/pitch orientation.
#[derive(Clone, Copy, PartialEq, Eq, Structural, Debug)]
pub struct Transform {
    pub translation: Vec3,
    pub rotation: Orientation,
}

impl Transform {
    /// The identity transform, as a spec value.
    pub open spec fn identity_spec() -> Transform {
        Transform {
            translation: Vec3 { x: 0, y: 0, z: 0 },
            rotation: Orientation { yaw: 0, pitch: 0 },
        }
    }

    /// The identity transform: at the origin, unrotated.
    pub fn identity() -> (t: Transform)
        ensures
            t == Transform::identity_spec(),
    {
        Transform { translation: Vec3 { x: 0, y: 0, z: 0 }, rotation: Orientation { yaw: 0, pitch: 0 } }
    }
}

/// How the physics engine treats a body: fixed in place, or simulated.
#[derive(Clone, Copy, PartialEq, Eq, Structural, Debug)]
pub enum BodyKind {
    Static,
    Dynamic,
}

/// The player: the single controllable entity. The move controller writes
/// its world translation.
#[derive(Clone, Copy, PartialEq, Eq, Structural, Debug)]
pub struct Player {
    pub transform: Transform,
}

/// The player's child camera. The look controller writes the rotation of its
/// local transform; the host composes the world transform from the parent.
#[derive(Clone, Copy, PartialEq, Eq, Structural, Debug)]
pub struct Camera {
    pub local: Transform,
}

/// The static ground slab: a large flat collision volume.
#[derive(Clone, Copy, PartialEq, Eq, Structural, Debug)]
pub struct Ground {
    pub position: Vec3,
    pub half_extents: Vec3,
    pub body: BodyKind,
}

/// The one free dynamic prop, spawned above the ground.
#[derive(Clone, Copy, PartialEq, Eq, Structural, Debug)]
pub struct Prop {
    pub position: Vec3,
    pub half_extents: Vec3,
    pub body: BodyKind,
}

/// The whole scene: one player (by construction), its optional camera child,
/// the ground, and the prop. Nothing is created or destroyed after setup.
#[derive(Clone, Copy, PartialEq, Eq, Structural, Debug)]
pub struct Scene {
    pub player: Player,
    pub camera: Option<Camera>,
    pub ground: Ground,
    pub prop: Prop,
}

/// The scene right after setup, as a spec value: player at the origin with
/// an identity camera child, a 100-unit-wide, one-unit-thick static ground
/// slab at the origin, and a unit-cube dynamic prop ten units up and five
/// units forward.
pub open spec fn initial_scene() -> Scene {
    Scene {
        player: Player { transform: Transform::identity_spec() },
        camera: Some(Camera { local: Transform::identity_spec() }),
        ground: Ground {
            position: Vec3 { x: 0, y: 0, z: 0 },
            half_extents: Vec3 { x: 50_000_000, y: 500_000, z: 50_000_000 },
            body: BodyKind::Static,
        },
        prop: Prop {
            position: Vec3 { x: 0, y: 10_000_000, z: -5_000_000i64 },
            half_extents: Vec3 { x: 500_000, y: 500_000, z: 500_000 },
            body: BodyKind::Dynamic,
        },
    }
}

/// One-time scene assembly: builds the player with its camera child, the
/// ground, and the prop, with the exact initial values. The single-player
/// assumption holds by construction.
pub fn setup() -> (s: Scene)
    ensures
        s == initial_scene(),
{
    Scene {
        player: Player { transform: Transform::identity() },
        camera: Some(Camera { local: Transform::identity() }),
        ground: Ground {
            position: Vec3 { x: 0, y: 0, z: 0 },
            half_extents: Vec3 { x: 50_000_000, y: 500_000, z: 50_000_000 },
            body: BodyKind::Static,
        },
        prop: Prop {
            position: Vec3 { x: 0, y: 10_000_000, z: -5_000_000 },
            half_extents: Vec3 { x: 500_000, y: 500_000, z: 500_000 },
            body: BodyKind::Dynamic,
        },
    }
}

/// Everything the host hands the controllers for one frame: the frame's
/// pointer-motion deltas in arrival order, the held-key snapshot, whether
/// the secondary pointer button is held, the camera's world rotation as
/// composed by the host from the transform hierarchy, and the elapsed frame
/// time in microseconds.
pub struct FrameInput {
    pub deltas: Vec<MotionDelta>,
    pub keys: Vec<Key>,
    pub button_held: bool,
    pub cam_world: Mat3,
    pub dt_micros: i64,
}

/// One whole frame: the look controller runs first and updates the camera's
/// local orientation, then the move controller integrates the player's
/// position. The two effects are stated separately: the look clauses mirror
/// `camera_look`, the position clause mirrors `player_move`.
pub fn frame_update(scene: &mut Scene, state: &mut LookState, input: &FrameInput)
    requires
        old(state).wf(),
        deltas_ok(old(state).yaw as int, input.deltas@),
        input.keys@.len() <= KEYS_MAX,
        input.cam_world.in_bounds(),
        0 <= input.dt_micros <= DT_MAX,
        old(scene).player.transform.translation.bounded(POS_LIMIT as int),
    ensures
        final(state).wf(),
        final(scene).ground == old(scene).ground,
        final(scene).prop == old(scene).prop,
        final(scene).player.transform.rotation == old(scene).player.transform.rotation,
        !(input.button_held && old(scene).camera is Some) ==> *final(state) == *old(state)
            && final(scene).camera == old(scene).camera,
        input.button_held && old(scene).camera is Some ==> {
            &&& (final(state).pitch as int, final(state).yaw as int) == look_after(
                old(state).pitch as int,
                old(state).yaw as int,
                input.deltas@,
            )
            &&& input.deltas@.len() == 0 ==> final(scene).camera == old(scene).camera
            &&& input.deltas@.len() > 0 ==> final(scene).camera == Some(
                Camera {
                    local: Transform {
                        translation: old(scene).camera->Some_0.local.translation,
                        rotation: Orientation { yaw: final(state).yaw, pitch: final(state).pitch },
                    },
                },
            )
        },
        old(scene).camera is None ==> final(scene).player == old(scene).player,
        old(scene).camera is Some ==> (
        final(scene).player.transform.translation.x as int,
        final(scene).player.transform.translation.y as int,
        final(scene).player.transform.translation.z as int,
        ) == move_applied(
            old(scene).player.transform.translation,
            input.cam_world,
            input.keys@,
            input.dt_micros as int,
        ),
{
    camera_look(scene, state, &input.deltas, input.button_held);
    player_move(scene, &input.keys, &input.cam_world, input.dt_micros);
}

} // verus!
