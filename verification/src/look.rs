//! The look controller: folds the frame's pointer-motion deltas into the
//! persisted pitch/yaw state and writes the player camera's local orientation.
//!
//! Angles are in micro-radians. Per delta `(dx, dy)` the update is
//! `yaw -= dx; pitch -= dy;` followed by clamping the pitch to
//! `[-PITCH_LIMIT, PITCH_LIMIT]`, which keeps the camera from flipping past
//! the poles. The whole update runs only while the secondary pointer button
//! is held; otherwise the deltas are discarded. A player without a camera
//! child is silently skipped.

use vstd::prelude::*;
use crate::scene::Camera;
use crate::scene::Scene;
use crate::scene::Transform;

verus! {

/// The pitch clamp bound: 1.54 radians in micro-radians, just short of a
/// quarter turn.
pub const PITCH_LIMIT: i64 = 1_540_000;

/// Largest single pointer-motion component the controller accepts, in
/// micro-radians. This is a machine limit (about a million radians), far
/// beyond any physical pointer motion; it keeps the clamped pitch update
/// inside `i64`.
pub const DELTA_MAX: i64 = 1_000_000_000_000_000;

/// One pointer-motion event: how far the pointer moved since the last event,
/// in micro-radians of intended rotation (`dx` horizontal, `dy` vertical).
#[derive(Clone, Copy, PartialEq, Eq, Structural, Debug)]
pub struct MotionDelta {
    pub dx: i64,
    pub dy: i64,
}

/// The accumulated look angles, persisted across frames and owned by the
/// look controller alone. `pitch` is always within
/// `[-PITCH_LIMIT, PITCH_LIMIT]`.
#[derive(Clone, Copy, PartialEq, Eq, Structural, Debug)]
pub struct LookState {
    pub pitch: i64,
    pub yaw: i64,
}

/// A camera orientation: first a rotation by `yaw` about the world-up axis,
/// then a rotation by `pitch` about the yawed local right axis. Applying yaw
/// first and pitch second prevents roll from accumulating.
#[derive(Clone, Copy, PartialEq, Eq, Structural, Debug)]
pub struct Orientation {
    pub yaw: i64,
    pub pitch: i64,
}

impl Orientation {
    /// The identity orientation: no yaw, no pitch.
    pub fn identity() -> (o: Orientation)
        ensures
            o == (Orientation { yaw: 0, pitch: 0 }),
    {
        Orientation { yaw: 0, pitch: 0 }
    }
}

/// Micro-radians per millidegree, scaled by a million: `17_453_293` is
/// `pi / 180 * 10^9` rounded to the nearest integer.
pub const URAD_PER_MDEG_SCALED: i64 = 17_453_293;

/// Converts an angle in millidegrees to micro-radians, rounding toward
/// zero. `90_000` millidegrees (a quarter turn) becomes `1_570_796`
/// micro-radians.
pub fn millideg_to_urad(d: i64) -> (r: i64)
    requires
        -500_000_000_000 <= d <= 500_000_000_000,
    ensures
        r == crate::math::tdiv(d * URAD_PER_MDEG_SCALED, 1_000_000),
        -DELTA_MAX <= r <= DELTA_MAX,
{
    proof {
        crate::math::lemma_tdiv_le(d * URAD_PER_MDEG_SCALED, 1_000_000, 10_000_000_000_000);
    }
    crate::math::div_trunc(d * URAD_PER_MDEG_SCALED, 1_000_000)
}

/// Clamps a pitch angle into `[-PITCH_LIMIT, PITCH_LIMIT]`.
pub open spec fn clamp_pitch(p: int) -> int {
    if p < -PITCH_LIMIT {
        -PITCH_LIMIT as int
    } else if p > PITCH_LIMIT {
        PITCH_LIMIT as int
    } else {
        p
    }
}

/// One delta applied to a `(pitch, yaw)` pair.
pub open spec fn look_step(p: int, y: int, d: MotionDelta) -> (int, int) {
    (clamp_pitch(p - d.dy), y - d.dx)
}

/// The `(pitch, yaw)` pair after folding a whole delta sequence in arrival
/// order.
pub open spec fn look_after(p: int, y: int, ds: Seq<MotionDelta>) -> (int, int)
    decreases ds.len(),
{
    if ds.len() == 0 {
        (p, y)
    } else {
        let s = look_step(p, y, ds[0]);
        look_after(s.0, s.1, ds.drop_first())
    }
}

/// Machine limits on a delta sequence starting from yaw `y`: every delta is
/// within `DELTA_MAX` and every intermediate yaw stays inside `i64`.
pub open spec fn deltas_ok(y: int, ds: Seq<MotionDelta>) -> bool
    decreases ds.len(),
{
    ds.len() == 0 || {
        &&& -DELTA_MAX <= ds[0].dy <= DELTA_MAX
        &&& i64::MIN <= y - ds[0].dx <= i64::MAX
        &&& deltas_ok(y - ds[0].dx, ds.drop_first())
    }
}

impl LookState {
    /// The pitch is within its clamp range.
    pub open spec fn wf(self) -> bool {
        -PITCH_LIMIT <= self.pitch <= PITCH_LIMIT
    }

    /// The initial look state: level and facing down the yaw origin.
    pub fn new() -> (s: LookState)
        ensures
            s == (LookState { pitch: 0, yaw: 0 }),
            s.wf(),
    {
        LookState { pitch: 0, yaw: 0 }
    }

    /// Applies one pointer-motion delta: `yaw -= dx`, `pitch -= dy`, then
    /// clamp the pitch.
    pub fn apply_motion(&mut self, d: &MotionDelta)
        requires
            old(self).wf(),
            -DELTA_MAX <= d.dy <= DELTA_MAX,
            i64::MIN <= old(self).yaw - d.dx <= i64::MAX,
        ensures
            final(self).wf(),
            (final(self).pitch as int, final(self).yaw as int) == look_step(
                old(self).pitch as int,
                old(self).yaw as int,
                *d,
            ),
    {
        self.yaw = self.yaw - d.dx;
        let p = self.pitch - d.dy;
        self.pitch = if p < -PITCH_LIMIT {
            -PITCH_LIMIT
        } else if p > PITCH_LIMIT {
            PITCH_LIMIT
        } else {
            p
        };
    }
}

/// Folding one more delta at the end of a sequence is one `look_step` after
/// folding the prefix.
pub proof fn lemma_look_after_snoc(p: int, y: int, s: Seq<MotionDelta>, d: MotionDelta)
    ensures
        look_after(p, y, s.push(d)) == ({
            let r = look_after(p, y, s);
            look_step(r.0, r.1, d)
        }),
    decreases s.len(),
{
    if s.len() == 0 {
        assert(s.push(d)[0] == d);
        assert(s.push(d).drop_first() =~= Seq::<MotionDelta>::empty());
        let st = look_step(p, y, d);
        assert(look_after(p, y, s.push(d)) == look_after(st.0, st.1, s.push(d).drop_first()));
        assert(look_after(st.0, st.1, Seq::<MotionDelta>::empty()) == (st.0, st.1));
        assert(look_after(p, y, s) == (p, y));
    } else {
        assert(s.push(d)[0] == s[0]);
        assert(s.push(d).drop_first() =~= s.drop_first().push(d));
        let st = look_step(p, y, s[0]);
        assert(look_after(p, y, s.push(d)) == look_after(st.0, st.1, s.drop_first().push(d)));
        lemma_look_after_snoc(st.0, st.1, s.drop_first(), d);
        assert(look_after(p, y, s) == look_after(st.0, st.1, s.drop_first()));
    }
}

/// The pitch after any delta sequence stays within the clamp range: for all
/// inputs, regardless of magnitude or sign, a well-formed starting pitch
/// yields a final pitch within `[-PITCH_LIMIT, PITCH_LIMIT]`.
pub proof fn lemma_pitch_always_clamped(p: int, y: int, ds: Seq<MotionDelta>)
    requires
        -PITCH_LIMIT <= p <= PITCH_LIMIT,
    ensures
        -PITCH_LIMIT <= look_after(p, y, ds).0 <= PITCH_LIMIT,
    decreases ds.len(),
{
    if ds.len() > 0 {
        let st = look_step(p, y, ds[0]);
        lemma_pitch_always_clamped(st.0, st.1, ds.drop_first());
    }
}

/// A zero-length delta sequence changes neither pitch nor yaw.
pub proof fn lemma_empty_motion_unchanged(p: int, y: int)
    ensures
        look_after(p, y, Seq::<MotionDelta>::empty()) == (p, y),
{
}

/// The look controller for one frame: while `button_held`, folds the frame's
/// deltas into the look state and writes the resulting orientation to the
/// player's child camera. Without the button, or without a camera child,
/// nothing changes and the deltas are discarded.
pub fn camera_look(
    scene: &mut Scene,
    state: &mut LookState,
    deltas: &Vec<MotionDelta>,
    button_held: bool,
)
    requires
        old(state).wf(),
        deltas_ok(old(state).yaw as int, deltas@),
    ensures
        final(state).wf(),
        final(scene).player == old(scene).player,
        final(scene).ground == old(scene).ground,
        final(scene).prop == old(scene).prop,
        !button_held ==> *final(scene) == *old(scene) && *final(state) == *old(state),
        old(scene).camera is None ==> *final(scene) == *old(scene) && *final(state) == *old(state),
        button_held && old(scene).camera is Some ==> {
            &&& (final(state).pitch as int, final(state).yaw as int) == look_after(
                old(state).pitch as int,
                old(state).yaw as int,
                deltas@,
            )
            &&& deltas@.len() == 0 ==> *final(scene) == *old(scene)
            &&& deltas@.len() > 0 ==> final(scene).camera == Some(
                Camera {
                    local: Transform {
                        translation: old(scene).camera->Some_0.local.translation,
                        rotation: Orientation { yaw: final(state).yaw, pitch: final(state).pitch },
                    },
                },
            )
        },
{
    if !button_held {
        return ;
    }
    if scene.camera.is_none() {
        return ;
    }
    let ghost p0 = state.pitch as int;
    let ghost y0 = state.yaw as int;
    proof {
        assert(deltas@.skip(0) =~= deltas@);
        assert(deltas@.take(0) =~= Seq::<MotionDelta>::empty());
    }
    let mut i: usize = 0;
    while i < deltas.len()
        invariant
            0 <= i <= deltas@.len(),
            state.wf(),
            (state.pitch as int, state.yaw as int) == look_after(p0, y0, deltas@.take(i as int)),
            deltas_ok(state.yaw as int, deltas@.skip(i as int)),
        decreases deltas@.len() - i,
    {
        let ghost pre = deltas@.take(i as int);
        let ghost rest = deltas@.skip(i as int);
        assert(rest[0] == deltas@[i as int]);
        state.apply_motion(&deltas[i]);
        proof {
            lemma_look_after_snoc(p0, y0, pre, deltas@[i as int]);
            assert(pre.push(deltas@[i as int]) =~= deltas@.take(i as int + 1));
            assert(rest.drop_first() =~= deltas@.skip(i as int + 1));
        }
        i = i + 1;
    }
    proof {
        assert(deltas@.take(deltas@.len() as int) =~= deltas@);
    }
    if deltas.len() > 0 {
        match &mut scene.camera {
            Some(cam) => {
                cam.local.rotation = Orientation { yaw: state.yaw, pitch: state.pitch };
            },
            None => {
                proof {
                    assert(false);
                }
            },
        }
    }
}

} // verus!
