use vstd::prelude::*;
use vstd::arithmetic::div_mod::{lemma_fundamental_div_mod, lemma_fundamental_div_mod_converse};

use crate::geometry::{Basis, Point, Vec3, UNIT, UNIT_SQ, TOLERANCE, dot};
use crate::input::{Actions, Key, actions_of_key, signed_exec};

verus! {

/// Nanodegrees in one degree.
pub const ANGLE_UNIT: i64 = 1_000_000_000;

/// The pitch never leaves `[-PITCH_LIMIT, PITCH_LIMIT]` (89 degrees).
pub const PITCH_LIMIT: i64 = 89_000_000_000;

/// One full turn (360 degrees); the yaw is held in `[0, FULL_TURN)`.
pub const FULL_TURN: i64 = 360_000_000_000;

/// The starting yaw, -90 degrees, held as 270 degrees.
pub const INITIAL_YAW: i64 = 270_000_000_000;

/// Nanodegrees turned per microsecond while a turn is asked for:
/// 90 degrees times a sensitivity of 0.005, per second.
pub const TURN_RATE: i64 = 450;

/// Position sub-units in one world unit.
pub const POSITION_UNIT: i128 = 100_000_000_000_000_000;

/// Position sub-units moved per microsecond for each basis sub-unit of the
/// movement vector: a speed of 0.05 world units per second.
pub const MOVE_RATE: i128 = 5;

pub open spec fn clamp(x: int, lo: int, hi: int) -> int {
    if x < lo {
        lo
    } else if x > hi {
        hi
    } else {
        x
    }
}

/// `x` held in an `i128`, saturated at its ends.
pub open spec fn saturate(x: int) -> int {
    clamp(x, i128::MIN as int, i128::MAX as int)
}

pub open spec fn fits_i128(x: int) -> bool {
    i128::MIN <= x <= i128::MAX
}

/// Microseconds from `last` to `now`; none if the clock went back.
pub open spec fn elapsed(last: u64, now: u64) -> int {
    if now >= last {
        now - last
    } else {
        0
    }
}

/// The pitch after turning for `t` microseconds, clamped to the limits.
pub open spec fn turned_pitch(pitch: int, a: Actions, t: int) -> int {
    clamp(pitch + a.pitch_factor() * TURN_RATE * t, -PITCH_LIMIT as int, PITCH_LIMIT as int)
}

/// The yaw after turning for `t` microseconds, reduced to one turn.
pub open spec fn turned_yaw(yaw: int, a: Actions, t: int) -> int {
    (yaw + a.yaw_factor() * TURN_RATE * t) % (FULL_TURN as int)
}

/// The displacement along one axis: the movement vector's component
/// (`right` and `forward` added or taken away as asked, not normalised)
/// times the speed and the elapsed time.
pub open spec fn step(right: int, forward: int, a: Actions, t: int) -> int {
    (a.right_factor() * right + a.forward_factor() * forward) * MOVE_RATE * t
}

/// The columns of the rotation matrix of a frame, scaled by `UNIT`:
/// `right`, `up` and `-forward`, each with a fourth component of 0, and the
/// homogeneous column.
pub open spec fn rotation_columns(b: Basis) -> Seq<Seq<int>> {
    seq![
        seq![b.right.x as int, b.right.y as int, b.right.z as int, 0],
        seq![b.up.x as int, b.up.y as int, b.up.z as int, 0],
        seq![-b.forward.x, -b.forward.y, -b.forward.z, 0],
        seq![0, 0, 0, UNIT as int],
    ]
}

/// The identity matrix, scaled by `UNIT`.
pub open spec fn identity_matrix() -> Seq<Seq<int>> {
    seq![
        seq![UNIT as int, 0, 0, 0],
        seq![0, UNIT as int, 0, 0],
        seq![0, 0, UNIT as int, 0],
        seq![0, 0, 0, UNIT as int],
    ]
}

/// A first-person camera: a position, a local frame, yaw and pitch, and
/// the time of the last update.
pub struct Camera {
    position: Point,
    basis: Basis,
    pitch: i64,
    yaw: i64,
    last_update_us: u64,
}

impl Camera {
    pub closed spec fn spec_position(&self) -> Point {
        self.position
    }

    pub closed spec fn spec_basis(&self) -> Basis {
        self.basis
    }

    pub closed spec fn spec_pitch(&self) -> int {
        self.pitch as int
    }

    pub closed spec fn spec_yaw(&self) -> int {
        self.yaw as int
    }

    pub closed spec fn spec_last_update(&self) -> u64 {
        self.last_update_us
    }

    /// The frame is orthonormal, the pitch within its limits and the yaw
    /// within one turn.
    pub open spec fn wf(&self) -> bool {
        &&& self.spec_basis().wf()
        &&& -PITCH_LIMIT <= self.spec_pitch() <= PITCH_LIMIT
        &&& 0 <= self.spec_yaw() < FULL_TURN
    }

    /// The state of a camera made at `now`: at (0, 0, 5), looking down -Z,
    /// yaw -90 degrees and pitch 0.
    pub open spec fn is_fresh(&self, now: u64) -> bool {
        &&& self.spec_position() == (Point { x: 0, y: 0, z: (5 * POSITION_UNIT) as i128 })
        &&& self.spec_basis() == Basis::spec_initial()
        &&& self.spec_pitch() == 0
        &&& self.spec_yaw() == INITIAL_YAW
        &&& self.spec_last_update() == now
    }

    /// `after` is `before` updated with `a` at time `now`: the angles turn,
    /// the position moves along the frame of `before`, and the frame itself
    /// waits for `set_basis`.
    pub open spec fn next_state(before: Camera, a: Actions, now: u64, after: Camera) -> bool {
        let t = elapsed(before.spec_last_update(), now);
        let p = before.spec_position();
        let b = before.spec_basis();
        &&& after.spec_last_update() == now
        &&& after.spec_basis() == b
        &&& after.spec_pitch() == turned_pitch(before.spec_pitch(), a, t)
        &&& after.spec_yaw() == turned_yaw(before.spec_yaw(), a, t)
        &&& after.spec_position().x == saturate(p.x + step(b.right.x as int, b.forward.x as int, a, t))
        &&& after.spec_position().y == saturate(p.y + step(b.right.y as int, b.forward.y as int, a, t))
        &&& after.spec_position().z == saturate(p.z + step(b.right.z as int, b.forward.z as int, a, t))
    }

    /// A camera at (0, 0, 5) looking down -Z, updated last at `now_us`.
    pub fn new(now_us: u64) -> (r: Camera)
        ensures
            r.is_fresh(now_us),
            r.wf(),
    {
        Camera {
            position: Point { x: 0, y: 0, z: 5 * POSITION_UNIT },
            basis: Basis::initial(),
            pitch: 0,
            yaw: INITIAL_YAW,
            last_update_us: now_us,
        }
    }

    /// Applies the actions asked for at time `now_us`: the yaw and pitch
    /// turn, the pitch is clamped, and the position moves by the sum of the
    /// asked directions times the speed and the elapsed time. The frame is
    /// recomputed by the caller from the new angles, through `set_basis`.
    pub fn process_input(&mut self, actions: &Actions, now_us: u64)
        requires
            old(self).wf(),
        ensures
            Camera::next_state(*old(self), *actions, now_us, *final(self)),
            final(self).wf(),
    {
        let t = elapsed_micros(self.last_update_us, now_us);
        let right_f = signed_exec(actions.strafe_left, actions.strafe_right);
        let forward_f = signed_exec(actions.move_backward, actions.move_forward);
        let yaw_f = signed_exec(actions.yaw_decrease, actions.yaw_increase);
        let pitch_f = signed_exec(actions.pitch_decrease, actions.pitch_increase);
        self.yaw = turn_yaw(self.yaw, yaw_f, t);
        self.pitch = turn_pitch(self.pitch, pitch_f, t);
        let b = self.basis;
        let p = self.position;
        self.position = Point {
            x: saturating_add(p.x, displacement(right_f, forward_f, b.right.x, b.forward.x, t)),
            y: saturating_add(p.y, displacement(right_f, forward_f, b.right.y, b.forward.y, t)),
            z: saturating_add(p.z, displacement(right_f, forward_f, b.right.z, b.forward.z, t)),
        };
        self.last_update_us = now_us;
    }

    /// Replaces the frame, leaving everything else as it was.
    pub fn set_basis(&mut self, basis: Basis)
        requires
            old(self).wf(),
            basis.wf(),
        ensures
            final(self).spec_basis() == basis,
            final(self).spec_position() == old(self).spec_position(),
            final(self).spec_pitch() == old(self).spec_pitch(),
            final(self).spec_yaw() == old(self).spec_yaw(),
            final(self).spec_last_update() == old(self).spec_last_update(),
            final(self).wf(),
    {
        self.basis = basis;
    }

    /// The rotation matrix whose columns are `right`, `up`, `-forward` and
    /// `(0, 0, 0, 1)`, scaled by `UNIT`, stored row by row: row `i` is
    /// `[right[i], up[i], -forward[i], 0]` for `i < 3`, and the last row is
    /// `[0, 0, 0, UNIT]`.
    pub fn get_rotation_matrix(&self) -> (r: [[i64; 4]; 4])
        requires
            self.wf(),
        ensures
            forall|i: int, j: int|
                0 <= i < 4 && 0 <= j < 4 ==> r[i][j] == #[trigger] rotation_columns(self.spec_basis())[j][i],
    {
        let b = self.basis;
        let r = [
            [b.right.x, b.up.x, -b.forward.x, 0],
            [b.right.y, b.up.y, -b.forward.y, 0],
            [b.right.z, b.up.z, -b.forward.z, 0],
            [0, 0, 0, UNIT],
        ];
        r
    }

    /// The position with a fourth component of 0, in position sub-units.
    pub fn position(&self) -> (r: [i128; 4])
        ensures
            r[0] == self.spec_position().x,
            r[1] == self.spec_position().y,
            r[2] == self.spec_position().z,
            r[3] == 0,
    {
        [self.position.x, self.position.y, self.position.z, 0]
    }

    /// The yaw in nanodegrees, within `[0, FULL_TURN)`.
    pub fn yaw(&self) -> (r: i64)
        ensures
            r == self.spec_yaw(),
    {
        self.yaw
    }

    /// The pitch in nanodegrees, within the limits.
    pub fn pitch(&self) -> (r: i64)
        ensures
            r == self.spec_pitch(),
    {
        self.pitch
    }

    /// The current frame.
    pub fn basis(&self) -> (r: Basis)
        ensures
            r == self.spec_basis(),
    {
        self.basis
    }
}

/// The squared length of `f - r`.
pub open spec fn sq_len_diff(f: Vec3, r: Vec3) -> int {
    (f.x - r.x) * (f.x - r.x) + (f.y - r.y) * (f.y - r.y) + (f.z - r.z) * (f.z - r.z)
}

/// The squared length of the move from `p` to `q`.
pub open spec fn sq_len_moved(p: Point, q: Point) -> int {
    (q.x - p.x) * (q.x - p.x) + (q.y - p.y) * (q.y - p.y) + (q.z - p.z) * (q.z - p.z)
}

/// Whatever is asked and whenever, an update keeps the pitch within its
/// limits and the frame orthonormal.
pub proof fn lemma_update_keeps_invariant(before: Camera, a: Actions, now: u64, after: Camera)
    requires
        before.wf(),
        Camera::next_state(before, a, now, after),
    ensures
        after.wf(),
        -PITCH_LIMIT <= after.spec_pitch() <= PITCH_LIMIT,
        after.spec_basis().wf(),
{
    let full = FULL_TURN as int;
    let x = before.spec_yaw() + a.yaw_factor() * TURN_RATE * elapsed(before.spec_last_update(), now);
    assert(0 <= x % full < full) by (nonlinear_arith)
        requires
            full == 360_000_000_000,
    ;
}

/// A fresh camera's rotation matrix is the identity.
pub proof fn lemma_fresh_rotation_is_identity(c: Camera, now: u64)
    requires
        c.is_fresh(now),
    ensures
        rotation_columns(c.spec_basis()) =~= identity_matrix(),
{
    assert(rotation_columns(c.spec_basis())[2] =~= identity_matrix()[2]);
}

/// With only the forward key pressed, the position moves by exactly
/// `forward * speed * t`, where the sum stays in range.
pub proof fn lemma_forward_moves_along_forward(before: Camera, now: u64, after: Camera)
    requires
        before.wf(),
        Camera::next_state(before, actions_of_key(Some(Key::W)), now, after),
        fits_i128(before.spec_position().x + before.spec_basis().forward.x * MOVE_RATE * elapsed(before.spec_last_update(), now)),
        fits_i128(before.spec_position().y + before.spec_basis().forward.y * MOVE_RATE * elapsed(before.spec_last_update(), now)),
        fits_i128(before.spec_position().z + before.spec_basis().forward.z * MOVE_RATE * elapsed(before.spec_last_update(), now)),
    ensures
        ({
            let t = elapsed(before.spec_last_update(), now);
            let f = before.spec_basis().forward;
            &&& after.spec_position().x == before.spec_position().x + f.x * MOVE_RATE * t
            &&& after.spec_position().y == before.spec_position().y + f.y * MOVE_RATE * t
            &&& after.spec_position().z == before.spec_position().z + f.z * MOVE_RATE * t
            &&& after.spec_pitch() == before.spec_pitch()
            &&& after.spec_yaw() == before.spec_yaw()
        }),
{
    let a = actions_of_key(Some(Key::W));
    let t = elapsed(before.spec_last_update(), now);
    let f = before.spec_basis().forward;
    let r = before.spec_basis().right;
    assert(a.right_factor() == 0 && a.forward_factor() == 1);
    assert(a.yaw_factor() == 0 && a.pitch_factor() == 0);
    assert(step(r.x as int, f.x as int, a, t) == f.x * MOVE_RATE * t) by (nonlinear_arith)
        requires a.right_factor() == 0 && a.forward_factor() == 1;
    assert(step(r.y as int, f.y as int, a, t) == f.y * MOVE_RATE * t) by (nonlinear_arith)
        requires a.right_factor() == 0 && a.forward_factor() == 1;
    assert(step(r.z as int, f.z as int, a, t) == f.z * MOVE_RATE * t) by (nonlinear_arith)
        requires a.right_factor() == 0 && a.forward_factor() == 1;
    let yaw = before.spec_yaw();
    let full = FULL_TURN as int;
    assert(a.yaw_factor() * TURN_RATE * t == 0) by (nonlinear_arith)
        requires a.yaw_factor() == 0;
    assert(a.pitch_factor() * TURN_RATE * t == 0) by (nonlinear_arith)
        requires a.pitch_factor() == 0;
    lemma_fundamental_div_mod_converse(yaw, full, 0, yaw);
}

/// With strafe-left and forward asked together, the position moves by
/// `(forward - right) * speed * t` (where the sum stays in range): the
/// movement is not normalised, so the squared length of the move is
/// `(speed * t)^2` times that of `forward - right`, which is 2 up to
/// rounding; the move is `sqrt(2)` times as long as with one key.
pub proof fn lemma_diagonal_moves_faster(before: Camera, a: Actions, now: u64, after: Camera)
    requires
        before.wf(),
        a.strafe_left && !a.strafe_right && a.move_forward && !a.move_backward,
        Camera::next_state(before, a, now, after),
        fits_i128(before.spec_position().x + (before.spec_basis().forward.x - before.spec_basis().right.x) * MOVE_RATE * elapsed(before.spec_last_update(), now)),
        fits_i128(before.spec_position().y + (before.spec_basis().forward.y - before.spec_basis().right.y) * MOVE_RATE * elapsed(before.spec_last_update(), now)),
        fits_i128(before.spec_position().z + (before.spec_basis().forward.z - before.spec_basis().right.z) * MOVE_RATE * elapsed(before.spec_last_update(), now)),
    ensures
        ({
            let t = elapsed(before.spec_last_update(), now);
            let f = before.spec_basis().forward;
            let r = before.spec_basis().right;
            &&& after.spec_position().x == before.spec_position().x + (f.x - r.x) * MOVE_RATE * t
            &&& after.spec_position().y == before.spec_position().y + (f.y - r.y) * MOVE_RATE * t
            &&& after.spec_position().z == before.spec_position().z + (f.z - r.z) * MOVE_RATE * t
            &&& 2 * UNIT_SQ - 4 * TOLERANCE <= sq_len_diff(f, r) <= 2 * UNIT_SQ + 4 * TOLERANCE
            &&& sq_len_moved(before.spec_position(), after.spec_position()) == (MOVE_RATE * t) * (
            MOVE_RATE * t) * sq_len_diff(f, r)
        }),
{
    let t = elapsed(before.spec_last_update(), now);
    let f = before.spec_basis().forward;
    let r = before.spec_basis().right;
    assert(a.right_factor() == -1 && a.forward_factor() == 1);
    assert(step(r.x as int, f.x as int, a, t) == (f.x - r.x) * MOVE_RATE * t) by (nonlinear_arith)
        requires a.right_factor() == -1 && a.forward_factor() == 1;
    assert(step(r.y as int, f.y as int, a, t) == (f.y - r.y) * MOVE_RATE * t) by (nonlinear_arith)
        requires a.right_factor() == -1 && a.forward_factor() == 1;
    assert(step(r.z as int, f.z as int, a, t) == (f.z - r.z) * MOVE_RATE * t) by (nonlinear_arith)
        requires a.right_factor() == -1 && a.forward_factor() == 1;
    assert(sq_len_diff(f, r) == dot(f, f) - 2 * dot(f, r) + dot(r, r)) by (nonlinear_arith);
    let k = MOVE_RATE * t;
    let p = before.spec_position();
    let q = after.spec_position();
    lemma_square_of_scaled(q.x - p.x, f.x - r.x, t);
    lemma_square_of_scaled(q.y - p.y, f.y - r.y, t);
    lemma_square_of_scaled(q.z - p.z, f.z - r.z, t);
    assert(sq_len_moved(p, q) == k * k * sq_len_diff(f, r)) by (nonlinear_arith)
        requires
            (q.x - p.x) * (q.x - p.x) == k * k * ((f.x - r.x) * (f.x - r.x)),
            (q.y - p.y) * (q.y - p.y) == k * k * ((f.y - r.y) * (f.y - r.y)),
            (q.z - p.z) * (q.z - p.z) == k * k * ((f.z - r.z) * (f.z - r.z)),
    ;
}

proof fn lemma_square_of_scaled(d: int, e: int, t: int)
    requires
        d == e * MOVE_RATE * t,
    ensures
        d * d == (MOVE_RATE * t) * (MOVE_RATE * t) * (e * e),
{
    assert(d * d == (5 * t) * (5 * t) * (e * e)) by (nonlinear_arith)
        requires
            d == e * 5 * t,
    ;
}

/// Turning the pitch up far enough leaves it at the limit exactly; it never
/// goes past it.
pub proof fn lemma_pitch_stops_at_limit(before: Camera, a: Actions, now: u64, after: Camera)
    requires
        before.wf(),
        a.pitch_increase && !a.pitch_decrease,
        Camera::next_state(before, a, now, after),
        before.spec_pitch() + TURN_RATE * elapsed(before.spec_last_update(), now) >= PITCH_LIMIT,
    ensures
        after.spec_pitch() == PITCH_LIMIT,
{
}

fn elapsed_micros(last: u64, now: u64) -> (r: u64)
    ensures
        r == elapsed(last, now),
{
    if now >= last {
        now - last
    } else {
        0
    }
}

fn saturating_add(a: i128, b: i128) -> (r: i128)
    ensures
        r == saturate(a + b),
{
    if b > 0 {
        if a > i128::MAX - b {
            i128::MAX
        } else {
            a + b
        }
    } else {
        if a < i128::MIN - b {
            i128::MIN
        } else {
            a + b
        }
    }
}

fn turn_pitch(pitch: i64, dir: i8, t: u64) -> (r: i64)
    requires
        -1 <= dir <= 1,
    ensures
        r == clamp(pitch + dir * TURN_RATE * t, -PITCH_LIMIT as int, PITCH_LIMIT as int),
{
    assert(-450 * 0x1_0000_0000_0000_0000 <= dir * 450 * t <= 450 * 0x1_0000_0000_0000_0000)
        by (nonlinear_arith)
        requires
            -1 <= dir <= 1,
            0 <= t < 0x1_0000_0000_0000_0000,
    ;
    let d: i128 = (dir as i128) * (TURN_RATE as i128) * (t as i128);
    let s: i128 = pitch as i128 + d;
    if s < -PITCH_LIMIT as i128 {
        -PITCH_LIMIT
    } else if s > PITCH_LIMIT as i128 {
        PITCH_LIMIT
    } else {
        s as i64
    }
}

fn turn_yaw(yaw: i64, dir: i8, t: u64) -> (r: i64)
    requires
        -1 <= dir <= 1,
        0 <= yaw < FULL_TURN,
    ensures
        r == (yaw + dir * TURN_RATE * t) % (FULL_TURN as int),
        0 <= r < FULL_TURN,
{
    assert(0 <= 450 * t <= 450 * 0x1_0000_0000_0000_0000) by (nonlinear_arith)
        requires
            0 <= t < 0x1_0000_0000_0000_0000,
    ;
    let m: u128 = (TURN_RATE as u128) * (t as u128);
    let turn: u128 = FULL_TURN as u128;
    let q: u128 = m / turn;
    let mag: u128 = m % turn;
    let ghost full = FULL_TURN as int;
    proof {
        lemma_fundamental_div_mod(m as int, full);
        assert(q * full <= m) by (nonlinear_arith)
            requires
                m == full * q + mag,
                0 <= mag,
        ;
    }
    let ghost total = yaw + dir * TURN_RATE * t;
    assert(dir * TURN_RATE * t == dir * m) by (nonlinear_arith)
        requires
            m == TURN_RATE * t,
    ;
    if dir > 0 {
        let s: i128 = yaw as i128 + mag as i128;
        if s >= FULL_TURN as i128 {
            let r = (s - FULL_TURN as i128) as i64;
            proof {
                assert(total == (q + 1) * full + r) by (nonlinear_arith)
                    requires
                        total == yaw + m,
                        m == full * q + mag,
                        r == yaw + mag - full,
                ;
                lemma_fundamental_div_mod_converse(total, full, q + 1, r as int);
            }
            r
        } else {
            let r = s as i64;
            proof {
                assert(total == q * full + r) by (nonlinear_arith)
                    requires
                        total == yaw + m,
                        m == full * q + mag,
                        r == yaw + mag,
                ;
                lemma_fundamental_div_mod_converse(total, full, q as int, r as int);
            }
            r
        }
    } else if dir < 0 {
        assert(total == yaw - m) by (nonlinear_arith)
            requires
                dir == -1,
                total == yaw + dir * m,
        ;
        let s: i128 = yaw as i128 - mag as i128;
        if s < 0 {
            let r = (s + FULL_TURN as i128) as i64;
            proof {
                assert(total == (-q - 1) * full + r) by (nonlinear_arith)
                    requires
                        total == yaw - m,
                        m == full * q + mag,
                        r == yaw - mag + full,
                ;
                lemma_fundamental_div_mod_converse(total, full, -q - 1, r as int);
            }
            r
        } else {
            let r = s as i64;
            proof {
                assert(total == (-q) * full + r) by (nonlinear_arith)
                    requires
                        total == yaw - m,
                        m == full * q + mag,
                        r == yaw - mag,
                ;
                lemma_fundamental_div_mod_converse(total, full, -q, r as int);
            }
            r
        }
    } else {
        proof {
            lemma_fundamental_div_mod_converse(total, full, 0, yaw as int);
        }
        yaw
    }
}

fn displacement(right_f: i8, forward_f: i8, right: i64, forward: i64, t: u64) -> (r: i128)
    requires
        -1 <= right_f <= 1,
        -1 <= forward_f <= 1,
        -UNIT <= right <= UNIT,
        -UNIT <= forward <= UNIT,
    ensures
        r == (right_f * right + forward_f * forward) * MOVE_RATE * t,
{
    assert(-UNIT <= right_f * right <= UNIT) by (nonlinear_arith)
        requires
            -1 <= right_f <= 1,
            -UNIT <= right <= UNIT,
    ;
    assert(-UNIT <= forward_f * forward <= UNIT) by (nonlinear_arith)
        requires
            -1 <= forward_f <= 1,
            -UNIT <= forward <= UNIT,
    ;
    let m: i128 = (right_f as i128) * (right as i128) + (forward_f as i128) * (forward as i128);
    assert(-10_000_000_000 * 0x1_0000_0000_0000_0000 <= m * 5 * t <= 10_000_000_000
        * 0x1_0000_0000_0000_0000) by (nonlinear_arith)
        requires
            -2_000_000_000 <= m <= 2_000_000_000,
            0 <= t < 0x1_0000_0000_0000_0000,
    ;
    m * MOVE_RATE * (t as i128)
}

} // verus!
