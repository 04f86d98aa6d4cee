//! Damped integration of velocity and position, with a speed cap.

use vstd::prelude::*;

use crate::fixed::{abs, div_toward_zero, lemma_quotient_bound, quot};
use crate::cluster::Position;

verus! {

/// Time steps are given in microseconds.
pub const MICROS_PER_SECOND: i64 = 1_000_000;

/// Velocity keeps 95 hundredths of itself each step.
pub const DAMPING_PERCENT: i64 = 95;

/// Speed cap, in millionths of a unit per second.
pub const SPEED_OF_LIGHT: i64 = 299_792_458_000_000;

/// Largest component magnitude the integrator accepts (2^62).
pub const COMPONENT_LIMIT: i64 = 4_611_686_018_427_387_904;

/// A vector with components in millionths of a unit (per second, or per
/// second squared, as the context says).
#[derive(Clone, Copy, Debug, PartialEq, Eq, Structural, Hash)]
pub struct Vector {
    pub x: i64,
    pub y: i64,
    pub z: i64,
}

/// Rate of change of velocity.
#[derive(Clone, Copy, Debug, PartialEq, Eq, Structural, Hash)]
pub struct Acceleration {
    pub value: Vector,
}

/// Rate of change of position.
#[derive(Clone, Copy, Debug, PartialEq, Eq, Structural, Hash)]
pub struct Velocity {
    pub value: Vector,
}

/// Squared length.
pub open spec fn norm_sq(x: int, y: int, z: int) -> int {
    x * x + y * y + z * z
}

/// Squared length of `v`.
pub open spec fn vnorm_sq(v: Vector) -> int {
    norm_sq(v.x as int, v.y as int, v.z as int)
}

/// `s` is the least natural number whose square reaches `n`.
pub open spec fn is_ceil_sqrt(s: int, n: int) -> bool {
    &&& s >= 0
    &&& s * s >= n
    &&& (s == 0 || (s - 1) * (s - 1) < n)
}

/// Least natural number whose square reaches `n`.
pub open spec fn ceil_sqrt(n: int) -> int {
    choose|s: int| is_ceil_sqrt(s, n)
}

/// One damping step of a component, rounded toward zero.
pub open spec fn damp(c: int) -> int {
    div_toward_zero(c * DAMPING_PERCENT, 100)
}

/// Change of a component over `dt` microseconds at rate `a`.
pub open spec fn change(a: int, dt: int) -> int {
    div_toward_zero(a * dt, MICROS_PER_SECOND as int)
}

/// Component `c` of a vector of length about `s`, rescaled to length `l`.
pub open spec fn rescale(c: int, s: int, l: int) -> int {
    div_toward_zero(c * l, s)
}

/// The vector `(cx, cy, cz)` unchanged if it is no longer than `l`, and
/// otherwise scaled back onto length `l`, each component rounded toward zero.
pub open spec fn clamped(cx: int, cy: int, cz: int, l: int) -> (int, int, int) {
    let n = norm_sq(cx, cy, cz);
    if n > l * l {
        let s = ceil_sqrt(n);
        (rescale(cx, s, l), rescale(cy, s, l), rescale(cz, s, l))
    } else {
        (cx, cy, cz)
    }
}

/// Velocity after one step: damp, add the acceleration over `dt`
/// microseconds, and, if the result is faster than the speed cap, scale it
/// back onto the cap.
pub open spec fn next_velocity(v: Vector, a: Vector, dt: int) -> Vector {
    let cx = damp(v.x as int) + change(a.x as int, dt);
    let cy = damp(v.y as int) + change(a.y as int, dt);
    let cz = damp(v.z as int) + change(a.z as int, dt);
    let (qx, qy, qz) = clamped(cx, cy, cz, SPEED_OF_LIGHT as int);
    Vector { x: qx as i64, y: qy as i64, z: qz as i64 }
}

/// Inputs small enough for the integrator's arithmetic.
pub open spec fn integrable(v: Vector, a: Vector, dt: int) -> bool {
    &&& -COMPONENT_LIMIT <= v.x <= COMPONENT_LIMIT
    &&& -COMPONENT_LIMIT <= v.y <= COMPONENT_LIMIT
    &&& -COMPONENT_LIMIT <= v.z <= COMPONENT_LIMIT
    &&& -COMPONENT_LIMIT <= change(a.x as int, dt) <= COMPONENT_LIMIT
    &&& -COMPONENT_LIMIT <= change(a.y as int, dt) <= COMPONENT_LIMIT
    &&& -COMPONENT_LIMIT <= change(a.z as int, dt) <= COMPONENT_LIMIT
}

pub(crate) proof fn lemma_ceil_sqrt_unique(s: int, n: int)
    requires
        is_ceil_sqrt(s, n),
    ensures
        ceil_sqrt(n) == s,
{
    let t = ceil_sqrt(n);
    assert(is_ceil_sqrt(t, n));
    if t < s {
        assert((s - 1) * (s - 1) >= t * t) by (nonlinear_arith)
            requires
                0 <= t <= s - 1,
        ;
    } else if s < t {
        assert((t - 1) * (t - 1) >= s * s) by (nonlinear_arith)
            requires
                0 <= s <= t - 1,
        ;
    }
}

/// Least natural number whose square reaches `n`.
pub(crate) fn isqrt_ceil(n: u128) -> (r: u128)
    requires
        n <= 0xffff_ffff_ffff_fffe_0000_0000_0000_0001,
    ensures
        is_ceil_sqrt(r as int, n as int),
        r <= 0xffff_ffff_ffff_ffff,
{
    let mut lo: u128 = 0;
    let mut hi: u128 = 0xffff_ffff_ffff_ffff;
    assert(hi * hi == 0xffff_ffff_ffff_fffe_0000_0000_0000_0001) by (nonlinear_arith)
        requires
            hi == 0xffff_ffff_ffff_ffff,
    ;
    while lo < hi
        invariant
            lo <= hi <= 0xffff_ffff_ffff_ffff,
            hi * hi >= n,
            lo == 0 || (lo - 1) * (lo - 1) < n,
        decreases hi - lo,
    {
        let mid = lo + (hi - lo) / 2;
        assert(mid * mid <= 0xffff_ffff_ffff_fffe_0000_0000_0000_0001) by (nonlinear_arith)
            requires
                mid <= 0xffff_ffff_ffff_ffff,
        ;
        if mid * mid >= n {
            hi = mid;
        } else {
            lo = mid + 1;
        }
    }
    lo
}

proof fn lemma_cap(cx: int, cy: int, cz: int, s: int, l: int)
    requires
        l > 0,
        is_ceil_sqrt(s, norm_sq(cx, cy, cz)),
        norm_sq(cx, cy, cz) > l * l,
    ensures
        norm_sq(rescale(cx, s, l), rescale(cy, s, l), rescale(cz, s, l)) <= l * l,
        abs(rescale(cx, s, l)) <= l,
        abs(rescale(cy, s, l)) <= l,
        abs(rescale(cz, s, l)) <= l,
{
    let n = norm_sq(cx, cy, cz);
    assert(l * l > 0) by (nonlinear_arith)
        requires
            l > 0,
    ;
    assert(s > 0) by (nonlinear_arith)
        requires
            s >= 0,
            s * s >= n,
            n > 0,
    ;
    let (x2, y2, z2) = (cx * cx, cy * cy, cz * cz);
    assert(x2 >= 0 && y2 >= 0 && z2 >= 0) by (nonlinear_arith)
        requires
            x2 == cx * cx,
            y2 == cy * cy,
            z2 == cz * cz,
    ;
    lemma_rescaled_component(cx, s, n, l);
    lemma_rescaled_component(cy, s, n, l);
    lemma_rescaled_component(cz, s, n, l);
    let qx = rescale(cx, s, l);
    let qy = rescale(cy, s, l);
    let qz = rescale(cz, s, l);
    let (a2, b2, c2) = (qx * qx, qy * qy, qz * qz);
    let s2 = s * s;
    let l2 = l * l;
    assert(s2 > 0) by (nonlinear_arith)
        requires
            s > 0,
            s2 == s * s,
    ;
    assert((a2 + b2 + c2) * s2 <= (x2 + y2 + z2) * l2) by (nonlinear_arith)
        requires
            a2 * s2 <= x2 * l2,
            b2 * s2 <= y2 * l2,
            c2 * s2 <= z2 * l2,
    ;
    assert((x2 + y2 + z2) * l2 <= s2 * l2) by (nonlinear_arith)
        requires
            x2 + y2 + z2 <= s2,
            l2 > 0,
    ;
    assert(a2 + b2 + c2 <= l2) by (nonlinear_arith)
        requires
            (a2 + b2 + c2) * s2 <= s2 * l2,
            s2 > 0,
    ;
}

proof fn lemma_rescaled_component(c: int, s: int, n: int, l: int)
    requires
        l > 0,
        s > 0,
        s * s >= n,
        c * c <= n,
    ensures
        rescale(c, s, l) * rescale(c, s, l) * (s * s) <= c * c * (l * l),
        abs(rescale(c, s, l)) <= l,
{
    lemma_quotient_bound(c * l, s);
    let q = abs(rescale(c, s, l));
    let b = abs(c);
    assert(abs(c * l) == b * l) by (nonlinear_arith)
        requires
            b == abs(c),
            l > 0,
    ;
    assert(rescale(c, s, l) * rescale(c, s, l) == q * q) by (nonlinear_arith)
        requires
            q == abs(rescale(c, s, l)),
    ;
    assert(c * c == b * b) by (nonlinear_arith)
        requires
            b == abs(c),
    ;
    assert(q * q * (s * s) <= b * b * (l * l)) by (nonlinear_arith)
        requires
            0 <= q * s <= b * l,
            q >= 0,
            s > 0,
    ;
    assert(b <= s) by (nonlinear_arith)
        requires
            b >= 0,
            s > 0,
            b * b <= s * s,
    ;
    assert(q <= l) by (nonlinear_arith)
        requires
            0 <= q * s <= b * l,
            b <= s,
            s > 0,
            l > 0,
            q >= 0,
    ;
}

proof fn lemma_ceil_sqrt_exists(n: int)
    requires
        n >= 0,
    ensures
        is_ceil_sqrt(ceil_sqrt(n), n),
    decreases n,
{
    if n == 0 {
        assert(is_ceil_sqrt(0, n));
    } else {
        lemma_ceil_sqrt_exists(n - 1);
        let t = ceil_sqrt(n - 1);
        if t * t >= n {
            assert(is_ceil_sqrt(t, n));
        } else {
            assert(t * t == n - 1);
            assert((t + 1) * (t + 1) >= n) by (nonlinear_arith)
                requires
                    t >= 0,
                    t * t == n - 1,
            ;
            assert(is_ceil_sqrt(t + 1, n));
        }
    }
}

proof fn lemma_damp_bound(c: int)
    ensures
        abs(damp(c)) <= abs(c),
        c != 0 ==> abs(damp(c)) < abs(c),
{
    lemma_quotient_bound(c * DAMPING_PERCENT, 100);
    let d = abs(damp(c));
    assert(abs(c * DAMPING_PERCENT) == 95 * abs(c));
    assert(d <= abs(c) && (abs(c) > 0 ==> d < abs(c))) by (nonlinear_arith)
        requires
            0 <= d * 100 <= 95 * abs(c),
            d >= 0,
    ;
}

pub(crate) proof fn lemma_square_le(a: int, b: int)
    requires
        abs(a) <= abs(b),
    ensures
        a * a <= b * b,
        abs(a) < abs(b) ==> a * a < b * b,
{
    let (x, y) = (abs(a), abs(b));
    assert(a * a == x * x && b * b == y * y) by (nonlinear_arith)
        requires
            x == abs(a),
            y == abs(b),
    ;
    assert(x * x <= y * y && (x < y ==> x * x < y * y)) by (nonlinear_arith)
        requires
            0 <= x <= y,
    ;
}

pub(crate) proof fn lemma_small_component(c: int, n: int, l: int)
    requires
        l > 0,
        0 <= c * c <= n <= l * l,
    ensures
        abs(c) <= l,
{
    let x = abs(c);
    assert(c * c == x * x) by (nonlinear_arith)
        requires
            x == abs(c),
    ;
    assert(x <= l) by (nonlinear_arith)
        requires
            x >= 0,
            l > 0,
            x * x <= l * l,
    ;
}

pub(crate) proof fn lemma_squares_nonneg(x: int, y: int, z: int)
    ensures
        0 <= x * x <= norm_sq(x, y, z),
        0 <= y * y <= norm_sq(x, y, z),
        0 <= z * z <= norm_sq(x, y, z),
{
    assert(x * x >= 0 && y * y >= 0 && z * z >= 0) by (nonlinear_arith);
}

/// A clamped vector is no longer than `l`, and neither is any component.
proof fn lemma_clamped(cx: int, cy: int, cz: int, l: int)
    requires
        l > 0,
    ensures
        ({
            let (qx, qy, qz) = clamped(cx, cy, cz, l);
            &&& norm_sq(qx, qy, qz) <= l * l
            &&& abs(qx) <= l
            &&& abs(qy) <= l
            &&& abs(qz) <= l
        }),
{
    let n = norm_sq(cx, cy, cz);
    lemma_squares_nonneg(cx, cy, cz);
    if n > l * l {
        lemma_ceil_sqrt_exists(n);
        lemma_cap(cx, cy, cz, ceil_sqrt(n), l);
    } else {
        lemma_small_component(cx, n, l);
        lemma_small_component(cy, n, l);
        lemma_small_component(cz, n, l);
    }
}

/// Scales `(cx, cy, cz)` back onto length `l` if it is longer.
pub(crate) fn clamp_length(cx: i128, cy: i128, cz: i128, l: i64) -> (r: (i128, i128, i128))
    requires
        -0x8000_0000_0000_0000 <= cx <= 0x8000_0000_0000_0000,
        -0x8000_0000_0000_0000 <= cy <= 0x8000_0000_0000_0000,
        -0x8000_0000_0000_0000 <= cz <= 0x8000_0000_0000_0000,
        0 < l <= 0x2_0000_0000_0000,
    ensures
        (r.0 as int, r.1 as int, r.2 as int) == clamped(cx as int, cy as int, cz as int, l as int),
        abs(r.0 as int) <= l,
        abs(r.1 as int) <= l,
        abs(r.2 as int) <= l,
{
    proof {
        lemma_square_le(cx as int, 0x8000_0000_0000_0000);
        lemma_square_le(cy as int, 0x8000_0000_0000_0000);
        lemma_square_le(cz as int, 0x8000_0000_0000_0000);
        lemma_squares_nonneg(cx as int, cy as int, cz as int);
        lemma_clamped(cx as int, cy as int, cz as int, l as int);
        assert(l as int * l as int <= 0x4_0000_0000_0000_0000_0000_0000) by (nonlinear_arith)
            requires
                0 < l <= 0x2_0000_0000_0000,
        ;
    }
    let n: u128 = (cx * cx) as u128 + (cy * cy) as u128 + (cz * cz) as u128;
    let limit: u128 = l as u128 * l as u128;
    if n > limit {
        let s = isqrt_ceil(n);
        proof {
            lemma_ceil_sqrt_unique(s as int, n as int);
            lemma_cap(cx as int, cy as int, cz as int, s as int, l as int);
            assert(s > 0);
            assert(-0x1_0000_0000_0000_0000_0000_0000_0000 <= cx * l <= 0x1_0000_0000_0000_0000_0000_0000_0000) by (nonlinear_arith)
                requires
                    -0x8000_0000_0000_0000 <= cx <= 0x8000_0000_0000_0000,
                    0 < l <= 0x2_0000_0000_0000,
            ;
            assert(-0x1_0000_0000_0000_0000_0000_0000_0000 <= cy * l <= 0x1_0000_0000_0000_0000_0000_0000_0000) by (nonlinear_arith)
                requires
                    -0x8000_0000_0000_0000 <= cy <= 0x8000_0000_0000_0000,
                    0 < l <= 0x2_0000_0000_0000,
            ;
            assert(-0x1_0000_0000_0000_0000_0000_0000_0000 <= cz * l <= 0x1_0000_0000_0000_0000_0000_0000_0000) by (nonlinear_arith)
                requires
                    -0x8000_0000_0000_0000 <= cz <= 0x8000_0000_0000_0000,
                    0 < l <= 0x2_0000_0000_0000,
            ;
        }
        let w = l as i128;
        (quot(cx * w, s as i128), quot(cy * w, s as i128), quot(cz * w, s as i128))
    } else {
        (cx, cy, cz)
    }
}

/// The integrator never leaves a velocity faster than the speed cap,
/// whatever the velocity, acceleration and time step it is given.
pub proof fn lemma_speed_cap(v: Vector, a: Vector, dt: int)
    ensures
        vnorm_sq(next_velocity(v, a, dt)) <= SPEED_OF_LIGHT * SPEED_OF_LIGHT,
{
    let cx = damp(v.x as int) + change(a.x as int, dt);
    let cy = damp(v.y as int) + change(a.y as int, dt);
    let cz = damp(v.z as int) + change(a.z as int, dt);
    lemma_clamped(cx, cy, cz, SPEED_OF_LIGHT as int);
}

/// With no acceleration, damping makes a moving body strictly slower at
/// every step (so its squared speed, a natural number, reaches zero after
/// finitely many steps), and a body at rest stays at rest.
pub proof fn lemma_damping(v: Vector, dt: int)
    ensures
        v != (Vector { x: 0, y: 0, z: 0 }) ==> vnorm_sq(next_velocity(v, Vector { x: 0, y: 0, z: 0 }, dt))
            < vnorm_sq(v),
        v == (Vector { x: 0, y: 0, z: 0 }) ==> next_velocity(v, Vector { x: 0, y: 0, z: 0 }, dt) == v,
{
    let zero = Vector { x: 0, y: 0, z: 0 };
    assert(change(0, dt) == 0);
    let cx = damp(v.x as int);
    let cy = damp(v.y as int);
    let cz = damp(v.z as int);
    lemma_damp_bound(v.x as int);
    lemma_damp_bound(v.y as int);
    lemma_damp_bound(v.z as int);
    lemma_square_le(cx, v.x as int);
    lemma_square_le(cy, v.y as int);
    lemma_square_le(cz, v.z as int);
    lemma_speed_cap(v, zero, dt);
    let n = norm_sq(cx, cy, cz);
    lemma_squares_nonneg(cx, cy, cz);
    lemma_clamped(cx, cy, cz, SPEED_OF_LIGHT as int);
}

/// Velocity after `n` steps of `dt` microseconds with no acceleration.
pub open spec fn coast(v: Vector, dt: int, n: nat) -> Vector
    decreases n,
{
    if n == 0 {
        v
    } else {
        coast(next_velocity(v, Vector { x: 0, y: 0, z: 0 }, dt), dt, (n - 1) as nat)
    }
}

/// With no acceleration a body comes to rest: after as many steps as its
/// squared speed (in squared millionths per second), its velocity is zero.
pub proof fn lemma_comes_to_rest(v: Vector, dt: int, n: nat)
    requires
        n >= vnorm_sq(v),
    ensures
        coast(v, dt, n) == (Vector { x: 0, y: 0, z: 0 }),
    decreases n,
{
    let zero = Vector { x: 0, y: 0, z: 0 };
    lemma_squares_nonneg(v.x as int, v.y as int, v.z as int);
    if v == zero {
        if n > 0 {
            lemma_damping(v, dt);
            lemma_comes_to_rest(v, dt, (n - 1) as nat);
        }
    } else {
        lemma_damping(v, dt);
        let w = next_velocity(v, zero, dt);
        assert(vnorm_sq(v) > 0) by (nonlinear_arith)
            requires
                v.x * v.x >= 0,
                v.y * v.y >= 0,
                v.z * v.z >= 0,
                vnorm_sq(v) == v.x * v.x + v.y * v.y + v.z * v.z,
                v.x != 0 || v.y != 0 || v.z != 0,
        ;
        lemma_comes_to_rest(w, dt, (n - 1) as nat);
    }
}

impl Vector {
    /// The zero vector.
    pub fn zero() -> (r: Vector)
        ensures
            r == (Vector { x: 0, y: 0, z: 0 }),
    {
        Vector { x: 0, y: 0, z: 0 }
    }
}

impl Acceleration {
    /// An acceleration of `value`.
    pub fn new(value: Vector) -> (r: Acceleration)
        ensures
            r.value == value,
    {
        Acceleration { value }
    }
}

impl Default for Acceleration {
    fn default() -> (r: Acceleration)
        ensures
            r.value == (Vector { x: 0, y: 0, z: 0 }),
    {
        Acceleration { value: Vector::zero() }
    }
}

impl Velocity {
    /// A velocity of `value`.
    pub fn new(value: Vector) -> (r: Velocity)
        ensures
            r.value == value,
    {
        Velocity { value }
    }

    /// Advances this velocity by one step of `delta_time_us` microseconds
    /// under `acceleration`: damping first, then the acceleration, then the
    /// speed cap.
    pub fn apply_acceleration(&mut self, acceleration: &Acceleration, delta_time_us: u64)
        requires
            integrable(old(self).value, acceleration.value, delta_time_us as int),
        ensures
            final(self).value == next_velocity(old(self).value, acceleration.value, delta_time_us as int),
            vnorm_sq(final(self).value) <= SPEED_OF_LIGHT * SPEED_OF_LIGHT,
    {
        let v = self.value;
        let a = acceleration.value;
        let dt = delta_time_us as i128;
        proof {
            lemma_damp_bound(v.x as int);
            lemma_damp_bound(v.y as int);
            lemma_damp_bound(v.z as int);
            assert(-0x7fff_ffff_ffff_ffff_8000_0000_0000_0000 <= a.x * dt <= 0x7fff_ffff_ffff_ffff_8000_0000_0000_0000) by (nonlinear_arith)
                requires
                    -0x8000_0000_0000_0000 <= a.x <= 0x7fff_ffff_ffff_ffff,
                    0 <= dt <= 0xffff_ffff_ffff_ffff,
            ;
            assert(-0x7fff_ffff_ffff_ffff_8000_0000_0000_0000 <= a.y * dt <= 0x7fff_ffff_ffff_ffff_8000_0000_0000_0000) by (nonlinear_arith)
                requires
                    -0x8000_0000_0000_0000 <= a.y <= 0x7fff_ffff_ffff_ffff,
                    0 <= dt <= 0xffff_ffff_ffff_ffff,
            ;
            assert(-0x7fff_ffff_ffff_ffff_8000_0000_0000_0000 <= a.z * dt <= 0x7fff_ffff_ffff_ffff_8000_0000_0000_0000) by (nonlinear_arith)
                requires
                    -0x8000_0000_0000_0000 <= a.z <= 0x7fff_ffff_ffff_ffff,
                    0 <= dt <= 0xffff_ffff_ffff_ffff,
            ;
        }
        let cx = quot(v.x as i128 * 95, 100) + quot(a.x as i128 * dt, 1_000_000);
        let cy = quot(v.y as i128 * 95, 100) + quot(a.y as i128 * dt, 1_000_000);
        let cz = quot(v.z as i128 * 95, 100) + quot(a.z as i128 * dt, 1_000_000);
        let (qx, qy, qz) = clamp_length(cx, cy, cz, SPEED_OF_LIGHT);
        self.value = Vector { x: qx as i64, y: qy as i64, z: qz as i64 };
        proof {
            lemma_speed_cap(v, a, delta_time_us as int);
        }
    }
}

impl Default for Velocity {
    fn default() -> (r: Velocity)
        ensures
            r.value == (Vector { x: 0, y: 0, z: 0 }),
    {
        Velocity { value: Vector::zero() }
    }
}

/// Position after moving at `v` for `dt` microseconds.
pub open spec fn moved(p: Position, v: Vector, dt: int) -> Position {
    Position {
        x: (p.x + change(v.x as int, dt)) as i64,
        y: (p.y + change(v.y as int, dt)) as i64,
        z: (p.z + change(v.z as int, dt)) as i64,
    }
}

/// `x` is representable as an `i64`.
pub open spec fn fits_i64(x: int) -> bool {
    i64::MIN <= x <= i64::MAX
}

/// Moves `position` along `velocity` for `delta_time_us` microseconds.
pub fn apply_velocity(position: &mut Position, velocity: &Velocity, delta_time_us: u64)
    requires
        fits_i64(old(position).x + change(velocity.value.x as int, delta_time_us as int)),
        fits_i64(old(position).y + change(velocity.value.y as int, delta_time_us as int)),
        fits_i64(old(position).z + change(velocity.value.z as int, delta_time_us as int)),
    ensures
        *final(position) == moved(*old(position), velocity.value, delta_time_us as int),
{
    let v = velocity.value;
    let dt = delta_time_us as i128;
    proof {
        assert(-0x7fff_ffff_ffff_ffff_8000_0000_0000_0000 <= v.x * dt <= 0x7fff_ffff_ffff_ffff_8000_0000_0000_0000) by (nonlinear_arith)
            requires
                -0x8000_0000_0000_0000 <= v.x <= 0x7fff_ffff_ffff_ffff,
                0 <= dt <= 0xffff_ffff_ffff_ffff,
        ;
        assert(-0x7fff_ffff_ffff_ffff_8000_0000_0000_0000 <= v.y * dt <= 0x7fff_ffff_ffff_ffff_8000_0000_0000_0000) by (nonlinear_arith)
            requires
                -0x8000_0000_0000_0000 <= v.y <= 0x7fff_ffff_ffff_ffff,
                0 <= dt <= 0xffff_ffff_ffff_ffff,
        ;
        assert(-0x7fff_ffff_ffff_ffff_8000_0000_0000_0000 <= v.z * dt <= 0x7fff_ffff_ffff_ffff_8000_0000_0000_0000) by (nonlinear_arith)
            requires
                -0x8000_0000_0000_0000 <= v.z <= 0x7fff_ffff_ffff_ffff,
                0 <= dt <= 0xffff_ffff_ffff_ffff,
        ;
    }
    let dx = quot(v.x as i128 * dt, 1_000_000);
    let dy = quot(v.y as i128 * dt, 1_000_000);
    let dz = quot(v.z as i128 * dt, 1_000_000);
    position.x = (position.x as i128 + dx) as i64;
    position.y = (position.y as i128 + dy) as i64;
    position.z = (position.z as i128 + dz) as i64;
}

/// Advances every velocity by the acceleration at the same position over one
/// frame of `delta_time_us` microseconds.
pub fn apply_acceleration(velocities: &mut Vec<Velocity>, accelerations: &Vec<Acceleration>, delta_time_us: u64)
    requires
        old(velocities).len() == accelerations.len(),
        forall|i: int|
            0 <= i < accelerations.len() ==> integrable(
                #[trigger] old(velocities)@[i].value,
                accelerations@[i].value,
                delta_time_us as int,
            ),
    ensures
        final(velocities).len() == old(velocities).len(),
        forall|i: int|
            0 <= i < accelerations.len() ==> #[trigger] final(velocities)@[i].value == next_velocity(
                old(velocities)@[i].value,
                accelerations@[i].value,
                delta_time_us as int,
            ),
{
    let ghost before = velocities@;
    let mut i: usize = 0;
    while i < accelerations.len()
        invariant
            i <= accelerations.len() == velocities.len() == before.len(),
            forall|m: int|
                0 <= m < accelerations.len() ==> integrable(
                    #[trigger] before[m].value,
                    accelerations@[m].value,
                    delta_time_us as int,
                ),
            forall|m: int| i <= m < before.len() ==> #[trigger] velocities@[m] == before[m],
            forall|m: int|
                0 <= m < i ==> #[trigger] velocities@[m].value == next_velocity(
                    before[m].value,
                    accelerations@[m].value,
                    delta_time_us as int,
                ),
        decreases accelerations.len() - i,
    {
        velocities[i].apply_acceleration(&accelerations[i], delta_time_us);
        i = i + 1;
    }
}

} // verus!
