//! Pairwise forces: gravity and electromagnetism between two particles, and
//! the per-frame accumulation of all pair forces into accelerations.

use vstd::prelude::*;

use crate::fixed::{abs, div_toward_zero, lemma_quotient_bound, quot};
use crate::cluster::{in_bounds, Position};
use crate::kinematics::{
    ceil_sqrt, change, clamp_length, clamped, isqrt_ceil, lemma_ceil_sqrt_unique, lemma_small_component,
    lemma_squares_nonneg, norm_sq, Vector,
};
use crate::particle::{charge_value, Particle, UNIT};

verus! {

/// Largest magnitude of a component of one pair's force, in millionths of a
/// unit (2^40).
pub const FORCE_LIMIT: i64 = 1_099_511_627_776;

/// Largest number of particle pairs in one frame (2^16).
pub const MAX_PAIRS: usize = 65_536;

/// Largest magnitude of an accumulated force component (2^56).
pub const NET_LIMIT: i64 = 72_057_594_037_927_936;

/// Longest frame, in microseconds.
pub const MAX_STEP_MICROS: u64 = 30_000_000;

/// Longest change that the force of one frame may make, in millionths of a
/// unit (ten units).
pub const MAX_CHANGE: i64 = 10_000_000;

/// The three forces between particles `a` and `b`, as felt by `a`; `b`
/// feels the opposite of each.
#[derive(Clone, Copy, Debug, PartialEq, Eq, Structural, Hash)]
pub struct PairForce {
    pub a: usize,
    pub b: usize,
    pub gravity: Vector,
    pub electromagnetic: Vector,
    pub strong: Vector,
}

/// The three forces on one particle, each summed over its pairs.
#[derive(Clone, Copy, Debug, PartialEq, Eq, Structural, Hash)]
pub struct ForceAccumulator {
    pub gravity: Vector,
    pub electromagnetic: Vector,
    pub strong: Vector,
}

/// Force `k` of a pair: 0 gravity, 1 electromagnetic, 2 strong.
pub open spec fn part(p: PairForce, k: int) -> Vector {
    if k == 0 {
        p.gravity
    } else if k == 1 {
        p.electromagnetic
    } else {
        p.strong
    }
}

/// Component `axis` (0, 1 or 2) of `v`.
pub open spec fn axis_of(v: Vector, axis: int) -> int {
    if axis == 0 {
        v.x as int
    } else if axis == 1 {
        v.y as int
    } else {
        v.z as int
    }
}

/// What pair `p` adds to particle `i` for force `k` along `axis`: the force
/// on `a`, its negation on `b`, nothing on any other particle.
pub open spec fn share(p: PairForce, i: int, k: int, axis: int) -> int {
    if i == p.a {
        axis_of(part(p, k), axis)
    } else if i == p.b {
        -axis_of(part(p, k), axis)
    } else {
        0
    }
}

/// Force `k` on particle `i` along `axis`, summed over `pairs`.
pub open spec fn net(pairs: Seq<PairForce>, i: int, k: int, axis: int) -> int
    decreases pairs.len(),
{
    if pairs.len() == 0 {
        0
    } else {
        net(pairs.drop_last(), i, k, axis) + share(pairs.last(), i, k, axis)
    }
}

/// Force `k` on particle `i`, summed over `pairs`, as a vector.
pub open spec fn net_vector(pairs: Seq<PairForce>, i: int, k: int) -> Vector {
    Vector { x: net(pairs, i, k, 0) as i64, y: net(pairs, i, k, 1) as i64, z: net(pairs, i, k, 2) as i64 }
}

/// The forces on particle `i`, summed over `pairs`.
pub open spec fn net_forces(pairs: Seq<PairForce>, i: int) -> ForceAccumulator {
    ForceAccumulator {
        gravity: net_vector(pairs, i, 0),
        electromagnetic: net_vector(pairs, i, 1),
        strong: net_vector(pairs, i, 2),
    }
}

/// Every component of `v` lies within `limit` of zero.
pub open spec fn bounded(v: Vector, limit: int) -> bool {
    &&& -limit <= v.x <= limit
    &&& -limit <= v.y <= limit
    &&& -limit <= v.z <= limit
}

/// Each accumulated component stays within the accumulation limit.
pub open spec fn forces_bounded(f: ForceAccumulator) -> bool {
    &&& bounded(f.gravity, NET_LIMIT as int)
    &&& bounded(f.electromagnetic, NET_LIMIT as int)
    &&& bounded(f.strong, NET_LIMIT as int)
}

/// A pair joins two different particles among `n`, with bounded forces.
pub open spec fn valid_pair(p: PairForce, n: int) -> bool {
    &&& p.a < n
    &&& p.b < n
    &&& p.a != p.b
    &&& bounded(p.gravity, FORCE_LIMIT as int)
    &&& bounded(p.electromagnetic, FORCE_LIMIT as int)
    &&& bounded(p.strong, FORCE_LIMIT as int)
}

/// Every pair of `pairs` is valid among `n` particles.
pub open spec fn valid_pairs(pairs: Seq<PairForce>, n: int) -> bool {
    forall|j: int| 0 <= j < pairs.len() ==> valid_pair(#[trigger] pairs[j], n)
}

/// Sum of force `k` along `axis` over particles `0 .. m`.
pub open spec fn total(pairs: Seq<PairForce>, m: int, k: int, axis: int) -> int
    decreases m,
{
    if m <= 0 {
        0
    } else {
        total(pairs, m - 1, k, axis) + net(pairs, m - 1, k, axis)
    }
}

/// Sum of what one pair adds over particles `0 .. m`.
pub open spec fn share_total(p: PairForce, m: int, k: int, axis: int) -> int
    decreases m,
{
    if m <= 0 {
        0
    } else {
        share_total(p, m - 1, k, axis) + share(p, m - 1, k, axis)
    }
}

proof fn lemma_share_total(p: PairForce, m: int, k: int, axis: int)
    requires
        p.a != p.b,
        m >= 0,
    ensures
        share_total(p, m, k, axis) == (if p.a < m { axis_of(part(p, k), axis) } else { 0 }) + (if p.b < m {
            -axis_of(part(p, k), axis)
        } else {
            0
        }),
    decreases m,
{
    if m > 0 {
        lemma_share_total(p, m - 1, k, axis);
    }
}

proof fn lemma_total_push(pairs: Seq<PairForce>, p: PairForce, m: int, k: int, axis: int)
    requires
        m >= 0,
    ensures
        total(pairs.push(p), m, k, axis) == total(pairs, m, k, axis) + share_total(p, m, k, axis),
    decreases m,
{
    assert(pairs.push(p).drop_last() == pairs);
    if m > 0 {
        lemma_total_push(pairs, p, m - 1, k, axis);
    }
}

/// What a pair adds to its second particle is the negation of what it adds
/// to its first, for each force and along each axis.
pub proof fn lemma_pair_shares_opposite(p: PairForce, k: int, axis: int)
    requires
        p.a != p.b,
    ensures
        share(p, p.b as int, k, axis) == -share(p, p.a as int, k, axis),
{
}

/// Every pair pushes its two particles equally and oppositely, for each of
/// the three forces apart: so, over all `n` particles, each force sums to
/// zero along every axis.
pub proof fn lemma_forces_balance(pairs: Seq<PairForce>, n: int, k: int, axis: int)
    requires
        n >= 0,
        valid_pairs(pairs, n),
    ensures
        total(pairs, n, k, axis) == 0,
    decreases pairs.len(),
{
    if pairs.len() == 0 {
        lemma_total_empty(pairs, n, k, axis);
    } else {
        let rest = pairs.drop_last();
        let p = pairs.last();
        assert(valid_pair(pairs[pairs.len() - 1], n));
        assert forall|j: int| 0 <= j < rest.len() implies valid_pair(#[trigger] rest[j], n) by {
            assert(rest[j] == pairs[j]);
        }
        lemma_forces_balance(rest, n, k, axis);
        lemma_total_push(rest, p, n, k, axis);
        lemma_share_total(p, n, k, axis);
        assert(rest.push(p) == pairs);
    }
}

proof fn lemma_total_empty(pairs: Seq<PairForce>, m: int, k: int, axis: int)
    requires
        pairs.len() == 0,
    ensures
        total(pairs, m, k, axis) == 0,
    decreases m,
{
    if m > 0 {
        lemma_total_empty(pairs, m - 1, k, axis);
    }
}

proof fn lemma_net_bound(pairs: Seq<PairForce>, n: int, i: int, k: int, axis: int)
    requires
        valid_pairs(pairs, n),
    ensures
        -(pairs.len() * FORCE_LIMIT) <= net(pairs, i, k, axis) <= pairs.len() * FORCE_LIMIT,
    decreases pairs.len(),
{
    if pairs.len() > 0 {
        let rest = pairs.drop_last();
        assert(valid_pair(pairs[pairs.len() - 1], n));
        assert forall|j: int| 0 <= j < rest.len() implies valid_pair(#[trigger] rest[j], n) by {
            assert(rest[j] == pairs[j]);
        }
        lemma_net_bound(rest, n, i, k, axis);
    }
}

fn add_vector(u: Vector, w: Vector) -> (r: Vector)
    requires
        bounded(u, NET_LIMIT - FORCE_LIMIT),
        bounded(w, FORCE_LIMIT as int),
    ensures
        r == (Vector { x: (u.x + w.x) as i64, y: (u.y + w.y) as i64, z: (u.z + w.z) as i64 }),
{
    Vector { x: u.x + w.x, y: u.y + w.y, z: u.z + w.z }
}

fn sub_vector(u: Vector, w: Vector) -> (r: Vector)
    requires
        bounded(u, NET_LIMIT - FORCE_LIMIT),
        bounded(w, FORCE_LIMIT as int),
    ensures
        r == (Vector { x: (u.x - w.x) as i64, y: (u.y - w.y) as i64, z: (u.z - w.z) as i64 }),
{
    Vector { x: u.x - w.x, y: u.y - w.y, z: u.z - w.z }
}

proof fn lemma_net_step(pairs: Seq<PairForce>, j: int, n: int, i: int)
    requires
        0 <= j < pairs.len() <= MAX_PAIRS,
        valid_pairs(pairs, n),
    ensures
        forall|k: int, axis: int| #[trigger] net(pairs.take(j + 1), i, k, axis) == net(pairs.take(j), i, k, axis) + share(pairs[j], i, k, axis),
        forall|k: int, axis: int| -(NET_LIMIT - FORCE_LIMIT) <= #[trigger] net(pairs.take(j), i, k, axis) <= NET_LIMIT - FORCE_LIMIT,
        forall|k: int, axis: int| -NET_LIMIT <= #[trigger] net(pairs.take(j + 1), i, k, axis) <= NET_LIMIT,
{
    assert(pairs.take(j + 1).drop_last() == pairs.take(j));
    assert(pairs.take(j + 1).last() == pairs[j]);
    assert(valid_pairs(pairs.take(j), n)) by {
        assert forall|m: int| 0 <= m < j implies valid_pair(#[trigger] pairs.take(j)[m], n) by {
            assert(pairs.take(j)[m] == pairs[m]);
        }
    }
    assert(valid_pairs(pairs.take(j + 1), n)) by {
        assert forall|m: int| 0 <= m < j + 1 implies valid_pair(#[trigger] pairs.take(j + 1)[m], n) by {
            assert(pairs.take(j + 1)[m] == pairs[m]);
        }
    }
    assert forall|k: int, axis: int| -(NET_LIMIT - FORCE_LIMIT) <= #[trigger] net(pairs.take(j), i, k, axis) <= NET_LIMIT - FORCE_LIMIT by {
        lemma_net_bound(pairs.take(j), n, i, k, axis);
        assert(j * FORCE_LIMIT <= NET_LIMIT - FORCE_LIMIT) by (nonlinear_arith)
            requires
                0 <= j < MAX_PAIRS,
        ;
    }
    assert forall|k: int, axis: int| -NET_LIMIT <= #[trigger] net(pairs.take(j + 1), i, k, axis) <= NET_LIMIT by {
        lemma_net_bound(pairs.take(j + 1), n, i, k, axis);
        assert((j + 1) * FORCE_LIMIT <= NET_LIMIT) by (nonlinear_arith)
            requires
                0 <= j < MAX_PAIRS,
        ;
    }
}

/// Sums, for each of `n` particles, the three forces of every pair it is in:
/// the pair's forces on its first particle, their negation on its second.
pub fn accumulate_forces(n: usize, pairs: &Vec<PairForce>) -> (r: Vec<ForceAccumulator>)
    requires
        pairs.len() <= MAX_PAIRS,
        valid_pairs(pairs@, n as int),
    ensures
        r.len() == n,
        forall|i: int| 0 <= i < n ==> #[trigger] r@[i] == net_forces(pairs@, i),
        forall|i: int| 0 <= i < n ==> forces_bounded(#[trigger] r@[i]),
{
    let zero = Vector { x: 0, y: 0, z: 0 };
    let mut acc: Vec<ForceAccumulator> = Vec::new();
    let mut i: usize = 0;
    while i < n
        invariant
            i <= n,
            acc.len() == i,
            forall|m: int| 0 <= m < i ==> #[trigger] acc@[m] == net_forces(pairs@.take(0), m),
            zero == (Vector { x: 0, y: 0, z: 0 }),
        decreases n - i,
    {
        acc.push(ForceAccumulator { gravity: zero, electromagnetic: zero, strong: zero });
        i = i + 1;
    }
    let mut j: usize = 0;
    while j < pairs.len()
        invariant
            j <= pairs.len() <= MAX_PAIRS,
            valid_pairs(pairs@, n as int),
            acc.len() == n,
            forall|m: int| 0 <= m < n ==> #[trigger] acc@[m] == net_forces(pairs@.take(j as int), m),
        decreases pairs.len() - j,
    {
        let p = pairs[j];
        proof {
            assert(valid_pair(pairs@[j as int], n as int));
            lemma_net_step(pairs@, j as int, n as int, p.a as int);
            lemma_net_step(pairs@, j as int, n as int, p.b as int);
            assert forall|m: int| 0 <= m < n implies net_forces(pairs@.take(j as int + 1), m) == (if m == p.a {
                ForceAccumulator {
                    gravity: Vector { x: (acc@[m].gravity.x + p.gravity.x) as i64, y: (acc@[m].gravity.y + p.gravity.y) as i64, z: (acc@[m].gravity.z + p.gravity.z) as i64 },
                    electromagnetic: Vector { x: (acc@[m].electromagnetic.x + p.electromagnetic.x) as i64, y: (acc@[m].electromagnetic.y + p.electromagnetic.y) as i64, z: (acc@[m].electromagnetic.z + p.electromagnetic.z) as i64 },
                    strong: Vector { x: (acc@[m].strong.x + p.strong.x) as i64, y: (acc@[m].strong.y + p.strong.y) as i64, z: (acc@[m].strong.z + p.strong.z) as i64 },
                }
            } else if m == p.b {
                ForceAccumulator {
                    gravity: Vector { x: (acc@[m].gravity.x - p.gravity.x) as i64, y: (acc@[m].gravity.y - p.gravity.y) as i64, z: (acc@[m].gravity.z - p.gravity.z) as i64 },
                    electromagnetic: Vector { x: (acc@[m].electromagnetic.x - p.electromagnetic.x) as i64, y: (acc@[m].electromagnetic.y - p.electromagnetic.y) as i64, z: (acc@[m].electromagnetic.z - p.electromagnetic.z) as i64 },
                    strong: Vector { x: (acc@[m].strong.x - p.strong.x) as i64, y: (acc@[m].strong.y - p.strong.y) as i64, z: (acc@[m].strong.z - p.strong.z) as i64 },
                }
            } else {
                acc@[m]
            }) by {
                lemma_net_step(pairs@, j as int, n as int, m);
            }
        }
        let fa = acc[p.a];
        acc[p.a] = ForceAccumulator {
            gravity: add_vector(fa.gravity, p.gravity),
            electromagnetic: add_vector(fa.electromagnetic, p.electromagnetic),
            strong: add_vector(fa.strong, p.strong),
        };
        let fb = acc[p.b];
        acc[p.b] = ForceAccumulator {
            gravity: sub_vector(fb.gravity, p.gravity),
            electromagnetic: sub_vector(fb.electromagnetic, p.electromagnetic),
            strong: sub_vector(fb.strong, p.strong),
        };
        j = j + 1;
    }
    assert(pairs@.take(pairs.len() as int) == pairs@);
    proof {
        assert forall|m: int| 0 <= m < n implies forces_bounded(#[trigger] acc@[m]) by {
            assert(acc@[m] == net_forces(pairs@, m));
            assert(pairs.len() * FORCE_LIMIT <= NET_LIMIT) by (nonlinear_arith)
                requires
                    pairs.len() <= MAX_PAIRS,
            ;
            lemma_net_bound(pairs@, n as int, m, 0, 0);
            lemma_net_bound(pairs@, n as int, m, 0, 1);
            lemma_net_bound(pairs@, n as int, m, 0, 2);
            lemma_net_bound(pairs@, n as int, m, 1, 0);
            lemma_net_bound(pairs@, n as int, m, 1, 1);
            lemma_net_bound(pairs@, n as int, m, 1, 2);
            lemma_net_bound(pairs@, n as int, m, 2, 0);
            lemma_net_bound(pairs@, n as int, m, 2, 1);
            lemma_net_bound(pairs@, n as int, m, 2, 2);
        }
    }
    acc
}

/// Acceleration that the accumulated forces `f` give a particle of mass
/// `mass` (millionths of the proton mass) over a frame of `dt` microseconds:
/// the summed force over the frame, scaled back if it is longer than the
/// largest change a frame may make, divided by the mass. A massless particle
/// gets none.
pub open spec fn acceleration_of(f: ForceAccumulator, mass: int, dt: int) -> Vector {
    let tx = f.gravity.x + f.electromagnetic.x + f.strong.x;
    let ty = f.gravity.y + f.electromagnetic.y + f.strong.y;
    let tz = f.gravity.z + f.electromagnetic.z + f.strong.z;
    let (qx, qy, qz) = clamped(change(tx, dt), change(ty, dt), change(tz, dt), MAX_CHANGE as int);
    if mass == 0 {
        Vector { x: 0, y: 0, z: 0 }
    } else {
        Vector {
            x: div_toward_zero(qx * UNIT, mass) as i64,
            y: div_toward_zero(qy * UNIT, mass) as i64,
            z: div_toward_zero(qz * UNIT, mass) as i64,
        }
    }
}

/// Change over the frame of one summed force component.
fn frame_change(t: i128, dt: i128) -> (r: i128)
    requires
        -3 * NET_LIMIT <= t <= 3 * NET_LIMIT,
        0 <= dt <= MAX_STEP_MICROS,
    ensures
        r == change(t as int, dt as int),
        -0x8000_0000_0000_0000 <= r <= 0x8000_0000_0000_0000,
{
    assert(-90_000_000 * NET_LIMIT <= t * dt <= 90_000_000 * NET_LIMIT) by (nonlinear_arith)
        requires
            -3 * NET_LIMIT <= t <= 3 * NET_LIMIT,
            0 <= dt <= MAX_STEP_MICROS,
    ;
    let r = quot(t * dt, 1_000_000);
    proof {
        lemma_quotient_bound(t * dt, 1_000_000);
        let q = abs(r as int);
        assert(q <= 90 * NET_LIMIT) by (nonlinear_arith)
            requires
                0 <= q * 1_000_000 <= abs(t * dt),
                abs(t * dt) <= 90_000_000 * NET_LIMIT,
        ;
    }
    r
}

/// Acceleration that the accumulated forces `f` give a particle of mass
/// `mass` over a frame of `delta_time_us` microseconds.
pub fn acceleration_for(f: &ForceAccumulator, mass: u64, delta_time_us: u64) -> (r: Vector)
    requires
        forces_bounded(*f),
        delta_time_us <= MAX_STEP_MICROS,
    ensures
        r == acceleration_of(*f, mass as int, delta_time_us as int),
{
    let dt = delta_time_us as i128;
    let tx = f.gravity.x as i128 + f.electromagnetic.x as i128 + f.strong.x as i128;
    let ty = f.gravity.y as i128 + f.electromagnetic.y as i128 + f.strong.y as i128;
    let tz = f.gravity.z as i128 + f.electromagnetic.z as i128 + f.strong.z as i128;
    let (qx, qy, qz) = clamp_length(frame_change(tx, dt), frame_change(ty, dt), frame_change(tz, dt), MAX_CHANGE);
    if mass == 0 {
        Vector { x: 0, y: 0, z: 0 }
    } else {
        let m = mass as i128;
        proof {
            lemma_quotient_bound(qx * 1_000_000, m as int);
            lemma_quotient_bound(qy * 1_000_000, m as int);
            lemma_quotient_bound(qz * 1_000_000, m as int);
        }
        let ax = quot(qx * 1_000_000, m);
        let ay = quot(qy * 1_000_000, m);
        let az = quot(qz * 1_000_000, m);
        Vector { x: ax as i64, y: ay as i64, z: az as i64 }
    }
}

/// Accelerations of particles with masses `masses` under the forces of
/// `pairs` over a frame of `delta_time_us` microseconds.
pub fn apply_forces(masses: &Vec<u64>, pairs: &Vec<PairForce>, delta_time_us: u64) -> (r: Vec<Vector>)
    requires
        pairs.len() <= MAX_PAIRS,
        valid_pairs(pairs@, masses.len() as int),
        delta_time_us <= MAX_STEP_MICROS,
    ensures
        r.len() == masses.len(),
        forall|i: int| 0 <= i < masses.len() ==> #[trigger] r@[i] == acceleration_of(
            net_forces(pairs@, i),
            masses@[i] as int,
            delta_time_us as int,
        ),
{
    let forces = accumulate_forces(masses.len(), pairs);
    let mut r: Vec<Vector> = Vec::new();
    let mut i: usize = 0;
    while i < masses.len()
        invariant
            i <= masses.len() == forces.len(),
            delta_time_us <= MAX_STEP_MICROS,
            r.len() == i,
            forall|m: int| 0 <= m < masses.len() ==> #[trigger] forces@[m] == net_forces(pairs@, m),
            forall|m: int| 0 <= m < masses.len() ==> forces_bounded(#[trigger] forces@[m]),
            forall|m: int| 0 <= m < i ==> #[trigger] r@[m] == acceleration_of(
                net_forces(pairs@, m),
                masses@[m] as int,
                delta_time_us as int,
            ),
        decreases masses.len() - i,
    {
        assert(forces_bounded(forces@[i as int]));
        r.push(acceleration_for(&forces[i], masses[i], delta_time_us));
        i = i + 1;
    }
    r
}

/// Gravitational constant, in units.
pub const GRAVITATIONAL_CONSTANT: i64 = 50_000;

/// Coulomb constant, in units.
pub const COULOMB_CONSTANT: i64 = 69_000;

/// Largest mass, and largest charge magnitude, that the force laws accept
/// (2^32 millionths).
pub const MASS_LIMIT: u64 = 4_294_967_296;

/// Magnitude of gravity, in millionths of a unit of force, between masses
/// `ma` and `mb` (millionths of the proton mass) at squared distance `d2`
/// (squared millionths): `G ma mb / d^2`, rounded down.
pub open spec fn gravity_magnitude(ma: int, mb: int, d2: int) -> int {
    GRAVITATIONAL_CONSTANT * ma * mb * UNIT / d2
}

/// Signed electromagnetic force on the first of two charges `qa`, `qb`
/// (millionths of the elementary charge) at squared distance `d2`, along the
/// direction toward the second: `-K qa qb / d^2`, rounded toward zero. Like
/// charges push apart.
pub open spec fn coulomb_magnitude(qa: int, qb: int, d2: int) -> int {
    div_toward_zero(-(COULOMB_CONSTANT * qa * qb * UNIT), d2)
}

/// `m` limited to the force a single pair may carry.
pub open spec fn saturate(m: int) -> int {
    if m > FORCE_LIMIT {
        FORCE_LIMIT as int
    } else if m < -FORCE_LIMIT {
        -FORCE_LIMIT
    } else {
        m
    }
}

/// A force of signed magnitude `m` along the offset `(dx, dy, dz)` of
/// length about `s`.
pub open spec fn along(m: int, dx: int, dy: int, dz: int, s: int) -> Vector {
    Vector {
        x: div_toward_zero(m * dx, s) as i64,
        y: div_toward_zero(m * dy, s) as i64,
        z: div_toward_zero(m * dz, s) as i64,
    }
}

/// A force law applied to the offset from `pa` to `pb`: none when the two
/// coincide, else the saturated magnitude `law(d2)` toward `pb`.
pub open spec fn directed(pa: Position, pb: Position, m: int) -> Vector {
    let (dx, dy, dz) = (pb.x - pa.x, pb.y - pa.y, pb.z - pa.z);
    let d2 = norm_sq(dx, dy, dz);
    if d2 == 0 {
        Vector { x: 0, y: 0, z: 0 }
    } else {
        along(saturate(m), dx, dy, dz, ceil_sqrt(d2))
    }
}

/// Squared distance between `pa` and `pb`.
pub open spec fn squared_distance(pa: Position, pb: Position) -> int {
    norm_sq(pb.x - pa.x, pb.y - pa.y, pb.z - pa.z)
}

/// Gravity on a particle of mass `ma` at `pa` from one of mass `mb` at `pb`.
pub open spec fn pair_gravity(pa: Position, pb: Position, ma: int, mb: int) -> Vector {
    let d2 = squared_distance(pa, pb);
    directed(pa, pb, if d2 == 0 { 0 } else { gravity_magnitude(ma, mb, d2) })
}

/// Electromagnetic force on a charge `qa` at `pa` from a charge `qb` at `pb`.
pub open spec fn pair_electromagnetic(pa: Position, pb: Position, qa: int, qb: int) -> Vector {
    let d2 = squared_distance(pa, pb);
    directed(pa, pb, if d2 == 0 { 0 } else { coulomb_magnitude(qa, qb, d2) })
}

/// Gravity and the electromagnetic force do not grow with distance: at a
/// greater squared distance neither magnitude is larger. (Exact magnitudes
/// would be strictly smaller; these are rounded toward zero, which can make
/// two neighbouring distances give the same value.)
pub proof fn lemma_forces_weaken_with_distance(ma: int, mb: int, qa: int, qb: int, d2: int, e2: int)
    requires
        0 < d2 <= e2,
        ma >= 0,
        mb >= 0,
    ensures
        0 <= gravity_magnitude(ma, mb, e2) <= gravity_magnitude(ma, mb, d2),
        abs(coulomb_magnitude(qa, qb, e2)) <= abs(coulomb_magnitude(qa, qb, d2)),
{
    let g = GRAVITATIONAL_CONSTANT * ma * mb * UNIT;
    assert(g >= 0) by (nonlinear_arith)
        requires
            ma >= 0,
            mb >= 0,
            g == GRAVITATIONAL_CONSTANT * ma * mb * UNIT,
    ;
    vstd::arithmetic::div_mod::lemma_div_is_ordered_by_denominator(g, d2, e2);
    vstd::arithmetic::div_mod::lemma_div_pos_is_pos(g, e2);
    let c = abs(-(COULOMB_CONSTANT * qa * qb * UNIT));
    vstd::arithmetic::div_mod::lemma_div_is_ordered_by_denominator(c, d2, e2);
    vstd::arithmetic::div_mod::lemma_div_pos_is_pos(c, e2);
    vstd::arithmetic::div_mod::lemma_div_pos_is_pos(c, d2);
}

/// `m` limited to the force a single pair may carry.
fn saturate_exec(m: i128) -> (r: i64)
    ensures
        r == saturate(m as int),
{
    if m > FORCE_LIMIT as i128 {
        FORCE_LIMIT
    } else if m < -(FORCE_LIMIT as i128) {
        -FORCE_LIMIT
    } else {
        m as i64
    }
}

/// Force of signed magnitude `law` (already divided by `d2`) from `pa`
/// toward `pb`.
fn directed_exec(pa: Position, pb: Position, law: i128, d2: u128) -> (r: Vector)
    requires
        in_bounds(pa),
        in_bounds(pb),
        d2 == squared_distance(pa, pb),
        d2 > 0,
    ensures
        r == directed(pa, pb, law as int),
        bounded(r, FORCE_LIMIT as int),
{
    let dx = pb.x as i128 - pa.x as i128;
    let dy = pb.y as i128 - pa.y as i128;
    let dz = pb.z as i128 - pa.z as i128;
    proof {
        crate::kinematics::lemma_square_le(dx as int, 0x200_0000_0000);
        crate::kinematics::lemma_square_le(dy as int, 0x200_0000_0000);
        crate::kinematics::lemma_square_le(dz as int, 0x200_0000_0000);
    }
    let s = isqrt_ceil(d2);
    proof {
        assert(s <= 0x400_0000_0000) by (nonlinear_arith)
            requires
                s == 0 || (s - 1) * (s - 1) < d2,
                d2 <= 3 * 0x200_0000_0000 * 0x200_0000_0000,
        ;
    }
    let m = saturate_exec(law) as i128;
    proof {
        lemma_ceil_sqrt_unique(s as int, d2 as int);
        lemma_squares_nonneg(dx as int, dy as int, dz as int);
        lemma_small_component(dx as int, d2 as int, s as int);
        lemma_small_component(dy as int, d2 as int, s as int);
        lemma_small_component(dz as int, d2 as int, s as int);
        lemma_along_bound(m as int, dx as int, s as int);
        lemma_along_bound(m as int, dy as int, s as int);
        lemma_along_bound(m as int, dz as int, s as int);
    }
    Vector { x: quot(m * dx, s as i128) as i64, y: quot(m * dy, s as i128) as i64, z: quot(m * dz, s as i128) as i64 }
}

proof fn lemma_along_bound(m: int, d: int, s: int)
    requires
        -FORCE_LIMIT <= m <= FORCE_LIMIT,
        abs(d) <= s,
        s > 0,
        s <= 0x400_0000_0000,
    ensures
        -0x1000_0000_0000_0000_0000_0000 <= m * d <= 0x1000_0000_0000_0000_0000_0000,
        -FORCE_LIMIT <= div_toward_zero(m * d, s) <= FORCE_LIMIT,
{
    let (am, ad) = (abs(m), abs(d));
    assert(abs(m * d) == am * ad) by (nonlinear_arith)
        requires
            am == abs(m),
            ad == abs(d),
    ;
    assert(am * ad <= FORCE_LIMIT * s) by (nonlinear_arith)
        requires
            0 <= am <= FORCE_LIMIT,
            0 <= ad <= s,
    ;
    assert(FORCE_LIMIT * s <= 0x1000_0000_0000_0000_0000_0000) by (nonlinear_arith)
        requires
            0 < s <= 0x400_0000_0000,
    ;
    lemma_quotient_bound(m * d, s);
    let q = abs(div_toward_zero(m * d, s));
    assert(q <= FORCE_LIMIT) by (nonlinear_arith)
        requires
            0 <= q * s <= FORCE_LIMIT * s,
            s > 0,
            q >= 0,
    ;
}

/// Gravity and electromagnetic force on particle `a` at `pa` from particle
/// `b` at `pb`. Particle `b` feels the opposite of each.
pub fn pair_force(pa: Position, pb: Position, a: &Particle, b: &Particle) -> (r: (Vector, Vector))
    requires
        in_bounds(pa),
        in_bounds(pb),
        a.mass <= MASS_LIMIT,
        b.mass <= MASS_LIMIT,
        -MASS_LIMIT <= charge_value(a.charge) <= MASS_LIMIT,
        -MASS_LIMIT <= charge_value(b.charge) <= MASS_LIMIT,
    ensures
        r.0 == pair_gravity(pa, pb, a.mass as int, b.mass as int),
        r.1 == pair_electromagnetic(pa, pb, charge_value(a.charge), charge_value(b.charge)),
        bounded(r.0, FORCE_LIMIT as int),
        bounded(r.1, FORCE_LIMIT as int),
{
    let dx = pb.x as i128 - pa.x as i128;
    let dy = pb.y as i128 - pa.y as i128;
    let dz = pb.z as i128 - pa.z as i128;
    proof {
        crate::kinematics::lemma_square_le(dx as int, 0x200_0000_0000);
        crate::kinematics::lemma_square_le(dy as int, 0x200_0000_0000);
        crate::kinematics::lemma_square_le(dz as int, 0x200_0000_0000);
        lemma_squares_nonneg(dx as int, dy as int, dz as int);
    }
    let d2 = (dx * dx + dy * dy + dz * dz) as u128;
    if d2 == 0 {
        let zero = Vector { x: 0, y: 0, z: 0 };
        return (zero, zero);
    }
    let ma = a.mass as i128;
    let mb = b.mass as i128;
    let qa = a.charge.charge() as i128;
    let qb = b.charge.charge() as i128;
    proof {
        assert(0 <= ma * mb <= 0x1_0000_0000_0000_0000) by (nonlinear_arith)
            requires
                0 <= ma <= MASS_LIMIT,
                0 <= mb <= MASS_LIMIT,
        ;
        assert(-0x1_0000_0000_0000_0000 <= qa * qb <= 0x1_0000_0000_0000_0000) by (nonlinear_arith)
            requires
                -MASS_LIMIT <= qa <= MASS_LIMIT,
                -MASS_LIMIT <= qb <= MASS_LIMIT,
        ;
    }
    let g = GRAVITATIONAL_CONSTANT as i128 * (ma * mb) * 1_000_000;
    let c = -(COULOMB_CONSTANT as i128 * (qa * qb) * 1_000_000);
    proof {
        assert(g == GRAVITATIONAL_CONSTANT * ma * mb * UNIT) by (nonlinear_arith)
            requires
                g == GRAVITATIONAL_CONSTANT * (ma * mb) * 1_000_000,
        ;
        assert(c == -(COULOMB_CONSTANT * qa * qb * UNIT)) by (nonlinear_arith)
            requires
                c == -(COULOMB_CONSTANT * (qa * qb) * 1_000_000),
        ;
    }
    let gravity = directed_exec(pa, pb, g / d2 as i128, d2);
    let electromagnetic = directed_exec(pa, pb, quot(c, d2 as i128), d2);
    (gravity, electromagnetic)
}

} // verus!
