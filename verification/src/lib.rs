//! Fixed-point control logic for a first-person scene: a look controller that
//! turns pointer motion into a clamped pitch/yaw camera orientation, and a
//! move controller that turns held movement keys into a player position
//! update, both expressed over integer micro-units so that every step is
//! verified exactly.
//!
//! Angles are measured in micro-radians (one millionth of a radian) and
//! lengths in micro-units (one millionth of a world unit). The host engine
//! supplies plain values each frame (pointer deltas, held keys, elapsed time,
//! the camera's world basis) and reads plain values back.

use vstd::prelude::*;

pub mod look;
pub mod math;
pub mod movement;
pub mod scene;

verus! {

/// One world unit (or one radian) in fixed-point micro-units.
pub const UNIT: i64 = 1_000_000;

} // verus!
