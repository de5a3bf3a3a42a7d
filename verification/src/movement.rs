//! The move controller: turns the held-key snapshot and the camera's world
//! orientation into a player position update.
//!
//! The camera's backward (local-Z) column gives a planar forward and right
//! basis; held keys combine those additively; the sum is normalized to unit
//! length (or left zero); and the result, rotated into the camera's frame
//! and scaled, is integrated over the elapsed frame time.

use vstd::prelude::*;
use crate::math::Mat3;
use crate::math::Vec3;
use crate::math::div_trunc;
use crate::math::isqrt;
use crate::math::lemma_sqrt_floor_unique;
use crate::math::lemma_tdiv_le;
use crate::math::rotate;
use crate::math::rotate_spec;
use crate::math::sqrt_floor;
use crate::math::tdiv;
use crate::scene::Scene;

verus! {

/// Largest held-key snapshot the controller accepts: a loose machine limit,
/// above any physical keyboard's rollover.
pub const KEYS_MAX: usize = 128;

/// Largest elapsed frame time the controller accepts, in microseconds
/// (a thousand seconds): a machine limit that keeps the integration in
/// `i64`.
pub const DT_MAX: i64 = 1_000_000_000;

/// Largest player coordinate magnitude the controller accepts, in
/// micro-units (a billion world units): a machine limit that keeps the
/// position update in `i64`.
pub const POS_LIMIT: i64 = 1_000_000_000_000_000;

/// Speed multiplier applied to the rotated velocity, in world units per
/// second of unit input.
pub const SPEED_SCALE: i64 = 50;

/// A key in the held-key snapshot. The four bound keys move the player;
/// `Other` stands for any key with no movement binding.
#[derive(Clone, Copy, PartialEq, Eq, Structural, Debug)]
pub enum Key {
    /// Bound to forward.
    Comma,
    /// Bound to backward.
    O,
    /// Bound to strafe left.
    A,
    /// Bound to strafe right.
    E,
    /// Any key with no movement binding.
    Other,
}

/// How many times `k` occurs in the snapshot.
pub open spec fn count_key(ks: Seq<Key>, k: Key) -> int
    decreases ks.len(),
{
    if ks.len() == 0 {
        0
    } else {
        (if ks[0] == k {
            1int
        } else {
            0
        }) + count_key(ks.drop_first(), k)
    }
}

/// The forward coefficient: forward presses minus backward presses.
pub open spec fn fwd_coef(ks: Seq<Key>) -> int {
    count_key(ks, Key::Comma) - count_key(ks, Key::O)
}

/// The rightward coefficient: strafe-right presses minus strafe-left
/// presses.
pub open spec fn side_coef(ks: Seq<Key>) -> int {
    count_key(ks, Key::E) - count_key(ks, Key::A)
}

/// Appending one key raises exactly that key's count by one.
pub proof fn lemma_count_key_snoc(s: Seq<Key>, k0: Key, k: Key)
    ensures
        count_key(s.push(k0), k) == count_key(s, k) + if k0 == k {
            1int
        } else {
            0
        },
    decreases s.len(),
{
    if s.len() == 0 {
        assert(s.push(k0)[0] == k0);
        assert(s.push(k0).drop_first() =~= Seq::<Key>::empty());
        assert(count_key(s.push(k0), k) == (if k0 == k {
            1int
        } else {
            0
        }) + count_key(Seq::<Key>::empty(), k));
        assert(count_key(Seq::<Key>::empty(), k) == 0);
    } else {
        assert(s.push(k0)[0] == s[0]);
        assert(s.push(k0).drop_first() =~= s.drop_first().push(k0));
        assert(count_key(s.push(k0), k) == (if s[0] == k {
            1int
        } else {
            0
        }) + count_key(s.drop_first().push(k0), k));
        lemma_count_key_snoc(s.drop_first(), k0, k);
        assert(count_key(s, k) == (if s[0] == k {
            1int
        } else {
            0
        }) + count_key(s.drop_first(), k));
    }
}

/// The unnormalized intended velocity: with the camera's backward column
/// `(m02, m12, m22)`, forward is `(-m02, 0, -m22)` and right is
/// `(m22, 0, -m02)` (both planar), combined additively per held key.
pub open spec fn raw_velocity(m: Mat3, ks: Seq<Key>) -> (int, int, int) {
    let a = fwd_coef(ks);
    let b = side_coef(ks);
    (a * -(m.m02 as int) + b * (m.m22 as int), 0, a * -(m.m22 as int) + b * -(m.m02 as int))
}

/// Computes the unnormalized intended velocity from the held keys and the
/// camera's world rotation.
pub fn held_direction(keys: &Vec<Key>, m: &Mat3) -> (v: Vec3)
    requires
        keys@.len() <= KEYS_MAX,
        m.in_bounds(),
    ensures
        (v.x as int, v.y as int, v.z as int) == raw_velocity(*m, keys@),
        v.bounded(2_000_000_000),
{
    let mut a: i64 = 0;
    let mut b: i64 = 0;
    proof {
        assert(keys@.take(0) =~= Seq::<Key>::empty());
    }
    let mut i: usize = 0;
    while i < keys.len()
        invariant
            0 <= i <= keys@.len(),
            keys@.len() <= KEYS_MAX,
            a == fwd_coef(keys@.take(i as int)),
            b == side_coef(keys@.take(i as int)),
            -(i as int) <= a <= i as int,
            -(i as int) <= b <= i as int,
        decreases keys@.len() - i,
    {
        let ghost pre = keys@.take(i as int);
        proof {
            lemma_count_key_snoc(pre, keys@[i as int], Key::Comma);
            lemma_count_key_snoc(pre, keys@[i as int], Key::O);
            lemma_count_key_snoc(pre, keys@[i as int], Key::A);
            lemma_count_key_snoc(pre, keys@[i as int], Key::E);
            assert(pre.push(keys@[i as int]) =~= keys@.take(i as int + 1));
        }
        match keys[i] {
            Key::Comma => {
                a = a + 1;
            },
            Key::O => {
                a = a - 1;
            },
            Key::A => {
                b = b - 1;
            },
            Key::E => {
                b = b + 1;
            },
            Key::Other => {},
        }
        i = i + 1;
    }
    proof {
        assert(keys@.take(keys@.len() as int) =~= keys@);
    }
    let fx: i64 = -m.m02;
    let fz: i64 = -m.m22;
    let rx: i64 = m.m22;
    let rz: i64 = -m.m02;
    proof {
        lemma_coef_product_bound(a as int, fx as int);
        lemma_coef_product_bound(a as int, fz as int);
        lemma_coef_product_bound(b as int, rx as int);
        lemma_coef_product_bound(b as int, rz as int);
    }
    Vec3 { x: a * fx + b * rx, y: 0, z: a * fz + b * rz }
}

/// Bounds a coefficient-times-basis product: with the coefficient within
/// the key limit and the basis entry within the matrix limit, the product
/// is within a quarter of the normalization input bound.
proof fn lemma_coef_product_bound(c: int, e: int)
    requires
        -(KEYS_MAX as int) <= c <= KEYS_MAX as int,
        -(crate::math::MAT_LIMIT as int) <= e <= crate::math::MAT_LIMIT as int,
    ensures
        -500_000_000 <= c * e <= 500_000_000,
{
    assert(-500_000_000 <= c * e <= 500_000_000) by (nonlinear_arith)
        requires
            -128 <= c <= 128,
            -2_000_000 <= e <= 2_000_000,
    ;
}

/// The normalized intended velocity: the zero vector stays zero; any other
/// vector is scaled by `UNIT` and divided by the floor square root of its
/// squared length, giving a vector of length close to one unit.
pub open spec fn normalize_spec(vx: int, vy: int, vz: int) -> (int, int, int) {
    let l2 = vx * vx + vy * vy + vz * vz;
    if l2 == 0 {
        (0int, 0int, 0int)
    } else {
        let n = sqrt_floor(l2);
        (
            tdiv(vx * (crate::UNIT as int), n),
            tdiv(vy * (crate::UNIT as int), n),
            tdiv(vz * (crate::UNIT as int), n),
        )
    }
}

/// Normalizes `v` to (close to) unit length, or to the zero vector when `v`
/// is exactly zero; never divides by zero.
pub fn normalize_or_zero(v: &Vec3) -> (r: Vec3)
    requires
        v.bounded(2_000_000_000),
    ensures
        (r.x as int, r.y as int, r.z as int) == normalize_spec(v.x as int, v.y as int, v.z as int),
        r.bounded(crate::UNIT as int),
{
    if v.x == 0 && v.y == 0 && v.z == 0 {
        proof {
            assert(v.x * v.x + v.y * v.y + v.z * v.z == 0) by (nonlinear_arith)
                requires
                    v.x == 0 && v.y == 0 && v.z == 0,
            ;
        }
        return Vec3 { x: 0, y: 0, z: 0 };
    }
    proof {
        lemma_sq_sum_bounds(v.x as int, v.y as int, v.z as int);
    }
    let x2: i64 = v.x * v.x;
    let y2: i64 = v.y * v.y;
    let z2: i64 = v.z * v.z;
    let l2: u64 = (x2 as u64) + (y2 as u64) + (z2 as u64);
    let n: u64 = isqrt(l2);
    proof {
        assert(l2 >= 1);
        assert(n >= 1) by (nonlinear_arith)
            requires
                0 <= n,
                1 <= l2,
                (l2 as int) < ((n as int) + 1) * ((n as int) + 1),
        ;
        assert(n <= 4_294_967_296) by (nonlinear_arith)
            requires
                (n as int) * (n as int) <= l2 as int,
                l2 <= u64::MAX,
        ;
        lemma_component_le_sqrt(v.x as int, l2 as int, n as int);
        lemma_component_le_sqrt(v.y as int, l2 as int, n as int);
        lemma_component_le_sqrt(v.z as int, l2 as int, n as int);
    }
    let ni: i64 = n as i64;
    let rx = div_trunc(v.x * crate::UNIT, ni);
    let ry = div_trunc(v.y * crate::UNIT, ni);
    let rz = div_trunc(v.z * crate::UNIT, ni);
    proof {
        lemma_scaled_within_unit(v.x as int, n as int);
        lemma_scaled_within_unit(v.y as int, n as int);
        lemma_scaled_within_unit(v.z as int, n as int);
        lemma_sqrt_floor_unique(l2 as int, n as int);
    }
    Vec3 { x: rx, y: ry, z: rz }
}

/// Squares of components bounded by two billion fit `i64`, are non-negative,
/// and their sum fits `u64`.
proof fn lemma_sq_sum_bounds(x: int, y: int, z: int)
    requires
        -2_000_000_000 <= x <= 2_000_000_000,
        -2_000_000_000 <= y <= 2_000_000_000,
        -2_000_000_000 <= z <= 2_000_000_000,
    ensures
        0 <= x * x <= 4_000_000_000_000_000_000,
        0 <= y * y <= 4_000_000_000_000_000_000,
        0 <= z * z <= 4_000_000_000_000_000_000,
        x != 0 ==> x * x >= 1,
        y != 0 ==> y * y >= 1,
        z != 0 ==> z * z >= 1,
{
    assert(0 <= x * x <= 4_000_000_000_000_000_000 && (x != 0 ==> x * x >= 1))
        by (nonlinear_arith)
        requires
            -2_000_000_000 <= x <= 2_000_000_000,
    ;
    assert(0 <= y * y <= 4_000_000_000_000_000_000 && (y != 0 ==> y * y >= 1))
        by (nonlinear_arith)
        requires
            -2_000_000_000 <= y <= 2_000_000_000,
    ;
    assert(0 <= z * z <= 4_000_000_000_000_000_000 && (z != 0 ==> z * z >= 1))
        by (nonlinear_arith)
        requires
            -2_000_000_000 <= z <= 2_000_000_000,
    ;
}

/// A component's magnitude is at most the floor square root of the squared
/// length.
proof fn lemma_component_le_sqrt(c: int, l2: int, n: int)
    requires
        0 <= n,
        c * c <= l2,
        l2 < (n + 1) * (n + 1),
    ensures
        -n <= c <= n,
{
    assert(-n <= c <= n) by (nonlinear_arith)
        requires
            0 <= n,
            c * c <= l2,
            l2 < (n + 1) * (n + 1),
    ;
}

/// One normalized component, squared: for `-n <= v <= n` and `q` the scaled
/// quotient, `n^2 q^2` is within `2 n |v| u` below `v^2 u^2` and never above
/// it.
proof fn lemma_component_sq(v: int, n: int, u: int)
    requires
        1 <= n,
        0 < u,
        -n <= v <= n,
    ensures
        ({
            let q = tdiv(v * u, n);
            let a = if v < 0 {
                -v
            } else {
                v
            };
            &&& n * n * (q * q) <= (v * v) * (u * u)
            &&& n * n * (q * q) >= (v * v) * (u * u) - 2 * n * (a * u)
        }),
{
    let a = if v < 0 {
        -v
    } else {
        v
    };
    let au = a * u;
    assert(0 <= au) by (nonlinear_arith)
        requires
            au == a * u,
            0 <= a,
            0 < u,
    ;
    let p = au / n;
    vstd::arithmetic::div_mod::lemma_div_pos_is_pos(au, n);
    vstd::arithmetic::div_mod::lemma_fundamental_div_mod(au, n);
    vstd::arithmetic::div_mod::lemma_mod_division_less_than_divisor(au, n);
    let rem = au % n;
    let q = tdiv(v * u, n);
    if v >= 0 {
        assert(v * u == au);
        assert(q == p);
    } else {
        assert(v * u == -au) by (nonlinear_arith)
            requires
                a == -v,
                au == a * u,
        ;
        if au == 0 {
            assert(q == p);
        } else {
            assert(q == -p);
        }
    }
    assert(q * q == p * p) by (nonlinear_arith)
        requires
            q == p || q == -p,
    ;
    assert(n * n * (p * p) <= au * au) by (nonlinear_arith)
        requires
            au == n * p + rem,
            0 <= rem < n,
            0 <= p,
            1 <= n,
    ;
    assert(n * n * (p * p) >= au * au - 2 * n * au) by (nonlinear_arith)
        requires
            au == n * p + rem,
            0 <= rem < n,
            0 <= p,
            1 <= n,
    ;
    assert(au * au == (v * v) * (u * u)) by (nonlinear_arith)
        requires
            au == a * u,
            a == v || a == -v,
    ;
}

/// The normalized velocity has (very nearly) unit length: for any nonzero
/// input vector, the squared length of `normalize_spec`'s result is at least
/// `UNIT^2 - 6 UNIT` and, scaled by the input's root `n`, at most
/// `n UNIT^2 + 2 UNIT^2`. The relative error is a few parts per million.
pub proof fn lemma_normalized_near_unit(vx: int, vy: int, vz: int)
    requires
        !(vx == 0 && vy == 0 && vz == 0),
    ensures
        ({
            let u = crate::UNIT as int;
            let l2 = vx * vx + vy * vy + vz * vz;
            let n = sqrt_floor(l2);
            let r = normalize_spec(vx, vy, vz);
            let s2 = r.0 * r.0 + r.1 * r.1 + r.2 * r.2;
            &&& 1 <= n
            &&& u * u - 6 * u <= s2
            &&& n * s2 <= n * (u * u) + 2 * (u * u)
        }),
{
    let u = crate::UNIT as int;
    let l2 = vx * vx + vy * vy + vz * vz;
    assert(vx * vx >= 0 && (vx != 0 ==> vx * vx >= 1)) by (nonlinear_arith);
    assert(vy * vy >= 0 && (vy != 0 ==> vy * vy >= 1)) by (nonlinear_arith);
    assert(vz * vz >= 0 && (vz != 0 ==> vz * vz >= 1)) by (nonlinear_arith);
    assert(1 <= l2);
    crate::math::lemma_sqrt_floor_exists(l2 as nat);
    let n = sqrt_floor(l2);
    assert(1 <= n) by (nonlinear_arith)
        requires
            0 <= n,
            1 <= l2,
            l2 < (n + 1) * (n + 1),
    ;
    assert(l2 <= n * n + 2 * n) by (nonlinear_arith)
        requires
            l2 < (n + 1) * (n + 1),
    ;
    lemma_component_le_sqrt(vx, l2, n);
    lemma_component_le_sqrt(vy, l2, n);
    lemma_component_le_sqrt(vz, l2, n);
    lemma_component_sq(vx, n, u);
    lemma_component_sq(vy, n, u);
    lemma_component_sq(vz, n, u);
    let qx = tdiv(vx * u, n);
    let qy = tdiv(vy * u, n);
    let qz = tdiv(vz * u, n);
    let ax = if vx < 0 {
        -vx
    } else {
        vx
    };
    let ay = if vy < 0 {
        -vy
    } else {
        vy
    };
    let az = if vz < 0 {
        -vz
    } else {
        vz
    };
    let s2 = qx * qx + qy * qy + qz * qz;
    assert(0 <= qx * qx && 0 <= qy * qy && 0 <= qz * qz) by (nonlinear_arith);
    assert(normalize_spec(vx, vy, vz) == (qx, qy, qz));
    // Upper bound: n^2 s2 <= u^2 l2 <= u^2 (n^2 + 2n), then cancel one n.
    assert(n * n * s2 <= (u * u) * l2) by (nonlinear_arith)
        requires
            n * n * (qx * qx) <= (vx * vx) * (u * u),
            n * n * (qy * qy) <= (vy * vy) * (u * u),
            n * n * (qz * qz) <= (vz * vz) * (u * u),
            s2 == qx * qx + qy * qy + qz * qz,
            l2 == vx * vx + vy * vy + vz * vz,
    ;
    assert((u * u) * l2 <= (u * u) * (n * n) + 2 * (u * u) * n) by (nonlinear_arith)
        requires
            l2 <= n * n + 2 * n,
            0 < u,
    ;
    assert(n * s2 <= n * (u * u) + 2 * (u * u)) by (nonlinear_arith)
        requires
            n * n * s2 <= (u * u) * (n * n) + 2 * (u * u) * n,
            1 <= n,
            0 <= s2,
    ;
    // Lower bound: n^2 s2 >= u^2 l2 - 2 n u (ax+ay+az) >= n^2 (u^2 - 6u).
    assert(n * n * s2 == n * n * (qx * qx) + n * n * (qy * qy) + n * n * (qz * qz))
        by (nonlinear_arith)
        requires
            s2 == qx * qx + qy * qy + qz * qz,
    ;
    assert((u * u) * l2 == (vx * vx) * (u * u) + (vy * vy) * (u * u) + (vz * vz) * (u * u))
        by (nonlinear_arith)
        requires
            l2 == vx * vx + vy * vy + vz * vz,
    ;
    assert(n * n * s2 >= (u * u) * l2 - 2 * n * (ax * u) - 2 * n * (ay * u) - 2 * n * (az * u));
    assert((u * u) * l2 >= (u * u) * (n * n)) by (nonlinear_arith)
        requires
            l2 >= n * n,
    ;
    assert(2 * n * (ax * u) + 2 * n * (ay * u) + 2 * n * (az * u) <= 6 * (n * n) * u)
        by (nonlinear_arith)
        requires
            0 <= ax <= n,
            0 <= ay <= n,
            0 <= az <= n,
            1 <= n,
            0 < u,
    ;
    assert(n * n * s2 >= (u * u) * (n * n) - 6 * (n * n) * u);
    assert(u * u - 6 * u <= s2) by (nonlinear_arith)
        requires
            n * n * s2 >= (u * u) * (n * n) - 6 * (n * n) * u,
            1 <= n,
    ;
}

/// The player position after one update: the held keys and the camera's
/// backward column give a normalized planar velocity; when it is nonzero it
/// is rotated by the camera's full world rotation (so forward motion tilts
/// with camera pitch), scaled by `SPEED_SCALE`, and integrated over `dt`
/// microseconds; when it is zero the position is unchanged.
pub open spec fn move_applied(p: Vec3, m: Mat3, ks: Seq<Key>, dt: int) -> (int, int, int) {
    let rv = raw_velocity(m, ks);
    let v = normalize_spec(rv.0, rv.1, rv.2);
    if v == (0int, 0int, 0int) {
        (p.x as int, p.y as int, p.z as int)
    } else {
        let l = rotate_spec(m, v.0, v.1, v.2);
        (
            p.x + tdiv(l.0 * dt, crate::UNIT as int) * (SPEED_SCALE as int),
            p.y + tdiv(l.1 * dt, crate::UNIT as int) * (SPEED_SCALE as int),
            p.z + tdiv(l.2 * dt, crate::UNIT as int) * (SPEED_SCALE as int),
        )
    }
}

/// The player position after one planar update: the normalized velocity is
/// integrated over `dt` microseconds directly, unrotated and at unit speed.
pub open spec fn move_planar_applied(p: Vec3, m: Mat3, ks: Seq<Key>, dt: int) -> (int, int, int) {
    let rv = raw_velocity(m, ks);
    let v = normalize_spec(rv.0, rv.1, rv.2);
    (
        p.x + tdiv(v.0 * dt, crate::UNIT as int),
        p.y + tdiv(v.1 * dt, crate::UNIT as int),
        p.z + tdiv(v.2 * dt, crate::UNIT as int),
    )
}

/// The move controller for one frame: integrates the held keys into the
/// player's world position, rotating the intended velocity by the camera's
/// full world rotation and scaling by `SPEED_SCALE`. A player without a
/// camera child is silently skipped.
pub fn player_move(scene: &mut Scene, keys: &Vec<Key>, cam_world: &Mat3, dt_micros: i64)
    requires
        keys@.len() <= KEYS_MAX,
        cam_world.in_bounds(),
        0 <= dt_micros <= DT_MAX,
        old(scene).player.transform.translation.bounded(POS_LIMIT as int),
    ensures
        final(scene).camera == old(scene).camera,
        final(scene).ground == old(scene).ground,
        final(scene).prop == old(scene).prop,
        final(scene).player.transform.rotation == old(scene).player.transform.rotation,
        old(scene).camera is None ==> *final(scene) == *old(scene),
        old(scene).camera is Some ==> (
        final(scene).player.transform.translation.x as int,
        final(scene).player.transform.translation.y as int,
        final(scene).player.transform.translation.z as int,
        ) == move_applied(
            old(scene).player.transform.translation,
            *cam_world,
            keys@,
            dt_micros as int,
        ),
{
    if scene.camera.is_none() {
        return ;
    }
    let dir = held_direction(keys, cam_world);
    let vel = normalize_or_zero(&dir);
    if vel.x == 0 && vel.y == 0 && vel.z == 0 {
        return ;
    }
    let local = rotate(cam_world, &vel);
    let sx = integrate_scaled(local.x, dt_micros);
    let sy = integrate_scaled(local.y, dt_micros);
    let sz = integrate_scaled(local.z, dt_micros);
    let t = scene.player.transform.translation;
    scene.player.transform.translation = Vec3 { x: t.x + sx, y: t.y + sy, z: t.z + sz };
}

/// One scaled integration step: `tdiv(c * dt, UNIT) * SPEED_SCALE` for a
/// rotated velocity component `c`.
fn integrate_scaled(c: i64, dt: i64) -> (s: i64)
    requires
        -12_000_000 <= c <= 12_000_000,
        0 <= dt <= DT_MAX,
    ensures
        s == tdiv(c * dt, crate::UNIT as int) * (SPEED_SCALE as int),
        -600_000_000_000 <= s <= 600_000_000_000,
{
    proof {
        assert(-12_000_000_000_000_000 <= (c as int) * (dt as int) <= 12_000_000_000_000_000)
            by (nonlinear_arith)
            requires
                -12_000_000 <= c <= 12_000_000,
                0 <= dt <= 1_000_000_000,
        ;
        lemma_tdiv_le((c as int) * (dt as int), crate::UNIT as int, 12_000_000_000);
    }
    let q = div_trunc(c * dt, crate::UNIT);
    q * SPEED_SCALE
}

/// The planar move controller for one frame: integrates the normalized
/// velocity directly, unrotated and unscaled. A player without a camera
/// child is silently skipped.
pub fn player_move_planar(scene: &mut Scene, keys: &Vec<Key>, cam_world: &Mat3, dt_micros: i64)
    requires
        keys@.len() <= KEYS_MAX,
        cam_world.in_bounds(),
        0 <= dt_micros <= DT_MAX,
        old(scene).player.transform.translation.bounded(POS_LIMIT as int),
    ensures
        final(scene).camera == old(scene).camera,
        final(scene).ground == old(scene).ground,
        final(scene).prop == old(scene).prop,
        final(scene).player.transform.rotation == old(scene).player.transform.rotation,
        old(scene).camera is None ==> *final(scene) == *old(scene),
        old(scene).camera is Some ==> (
        final(scene).player.transform.translation.x as int,
        final(scene).player.transform.translation.y as int,
        final(scene).player.transform.translation.z as int,
        ) == move_planar_applied(
            old(scene).player.transform.translation,
            *cam_world,
            keys@,
            dt_micros as int,
        ),
{
    if scene.camera.is_none() {
        return ;
    }
    let dir = held_direction(keys, cam_world);
    let vel = normalize_or_zero(&dir);
    let sx = integrate_unit(vel.x, dt_micros);
    let sy = integrate_unit(vel.y, dt_micros);
    let sz = integrate_unit(vel.z, dt_micros);
    let t = scene.player.transform.translation;
    scene.player.transform.translation = Vec3 { x: t.x + sx, y: t.y + sy, z: t.z + sz };
}

/// One unit-speed integration step: `tdiv(c * dt, UNIT)` for a normalized
/// velocity component `c`.
fn integrate_unit(c: i64, dt: i64) -> (s: i64)
    requires
        -1_000_000 <= c <= 1_000_000,
        0 <= dt <= DT_MAX,
    ensures
        s == tdiv(c * dt, crate::UNIT as int),
        -1_000_000_000 <= s <= 1_000_000_000,
{
    proof {
        assert(-1_000_000_000_000_000 <= (c as int) * (dt as int) <= 1_000_000_000_000_000)
            by (nonlinear_arith)
            requires
                -1_000_000 <= c <= 1_000_000,
                0 <= dt <= 1_000_000_000,
        ;
        lemma_tdiv_le((c as int) * (dt as int), crate::UNIT as int, 1_000_000_000);
    }
    div_trunc(c * dt, crate::UNIT)
}

/// A snapshot holding only unbound keys has zero coefficients on both axes.
pub proof fn lemma_unbound_keys_zero_coefs(ks: Seq<Key>)
    requires
        forall|i: int| 0 <= i < ks.len() ==> ks[i] is Other,
    ensures
        fwd_coef(ks) == 0,
        side_coef(ks) == 0,
    decreases ks.len(),
{
    if ks.len() > 0 {
        assert(ks[0] is Other);
        assert(forall|i: int|
            0 <= i < ks.drop_first().len() ==> ks.drop_first()[i] == ks[i + 1]
                && ks.drop_first()[i] is Other);
        lemma_unbound_keys_zero_coefs(ks.drop_first());
    }
}

/// Zero coefficients give zero velocity and leave the position unchanged
/// under both movement variants, for any camera rotation and elapsed time.
pub proof fn lemma_zero_direction_no_motion(p: Vec3, m: Mat3, ks: Seq<Key>, dt: int)
    requires
        fwd_coef(ks) == 0,
        side_coef(ks) == 0,
    ensures
        raw_velocity(m, ks) == (0int, 0int, 0int),
        normalize_spec(0, 0, 0) == (0int, 0int, 0int),
        move_applied(p, m, ks, dt) == (p.x as int, p.y as int, p.z as int),
        move_planar_applied(p, m, ks, dt) == (p.x as int, p.y as int, p.z as int),
{
    let a = fwd_coef(ks);
    let b = side_coef(ks);
    assert(a * -(m.m02 as int) + b * (m.m22 as int) == 0 && a * -(m.m22 as int) + b * -(
    m.m02 as int) == 0) by (nonlinear_arith)
        requires
            a == 0,
            b == 0,
    ;
    assert((0int) * (0int) + (0int) * (0int) + (0int) * (0int) == 0) by (nonlinear_arith);
    assert((0int) * dt == 0) by (nonlinear_arith);
    vstd::arithmetic::div_mod::lemma_div_of0(crate::UNIT as int);
    assert(tdiv(0, crate::UNIT as int) == 0);
}

/// Holding opposite keys in equal numbers (forward with backward, left with
/// right) cancels to the zero velocity, for any camera rotation.
pub proof fn lemma_opposite_keys_cancel(m: Mat3, ks: Seq<Key>)
    requires
        count_key(ks, Key::Comma) == count_key(ks, Key::O),
        count_key(ks, Key::E) == count_key(ks, Key::A),
    ensures
        ({
            let rv = raw_velocity(m, ks);
            normalize_spec(rv.0, rv.1, rv.2) == (0int, 0int, 0int)
        }),
{
    lemma_zero_direction_no_motion(Vec3 { x: 0, y: 0, z: 0 }, m, ks, 0);
}

/// Holding no movement keys, or only keys with no binding, changes the
/// position by nothing under both movement variants, for any camera rotation
/// and any elapsed time.
pub proof fn lemma_no_keys_no_motion(p: Vec3, m: Mat3, ks: Seq<Key>, dt: int)
    requires
        forall|i: int| 0 <= i < ks.len() ==> ks[i] is Other,
    ensures
        move_applied(p, m, ks, dt) == (p.x as int, p.y as int, p.z as int),
        move_planar_applied(p, m, ks, dt) == (p.x as int, p.y as int, p.z as int),
{
    lemma_unbound_keys_zero_coefs(ks);
    lemma_zero_direction_no_motion(p, m, ks, dt);
}

/// A component within `n` scaled by `UNIT` and divided by `n` stays within
/// one unit.
proof fn lemma_scaled_within_unit(c: int, n: int)
    requires
        1 <= n,
        -n <= c <= n,
    ensures
        -(crate::UNIT as int) <= tdiv(c * (crate::UNIT as int), n) <= crate::UNIT as int,
{
    assert(-(n * (crate::UNIT as int)) <= c * (crate::UNIT as int) <= n * (crate::UNIT as int))
        by (nonlinear_arith)
        requires
            1 <= n,
            -n <= c <= n,
    ;
    assert(n * (crate::UNIT as int) == (crate::UNIT as int) * n) by (nonlinear_arith);
    lemma_tdiv_le(c * (crate::UNIT as int), n, crate::UNIT as int);
}

} // verus!
