//! Greedy, order-dependent clustering of nucleons into candidate nuclei.

use vstd::prelude::*;

use crate::particle::{is_nucleon, Kind};

verus! {

/// Largest coordinate magnitude, in millionths of a unit, that a position
/// handed to clustering may hold (2^40, about a million units).
pub const COORD_LIMIT: i64 = 1_099_511_627_776;

/// Largest number of bodies that one clustering pass accepts (2^20).
pub const MAX_BODIES: usize = 1_048_576;

/// A nucleon joins a cluster whose centroid lies closer than this distance,
/// in millionths of a unit.
pub const NUCLEUS_FORMATION_DISTANCE: i64 = 12_000_000;

/// A point in space, each coordinate in millionths of a unit.
#[derive(Clone, Copy, Debug, PartialEq, Eq, Structural, Hash)]
pub struct Position {
    pub x: i64,
    pub y: i64,
    pub z: i64,
}

/// One particle as the clustering pass sees it.
#[derive(Clone, Copy, Debug, PartialEq, Eq, Structural, Hash)]
pub struct Body {
    pub id: u64,
    pub kind: Kind,
    pub position: Position,
}

/// Every coordinate of `p` lies within the clustering limit.
pub open spec fn in_bounds(p: Position) -> bool {
    &&& -COORD_LIMIT <= p.x <= COORD_LIMIT
    &&& -COORD_LIMIT <= p.y <= COORD_LIMIT
    &&& -COORD_LIMIT <= p.z <= COORD_LIMIT
}

impl Position {
    /// Whether every coordinate lies within the clustering limit.
    pub fn within_limits(&self) -> (r: bool)
        ensures
            r == in_bounds(*self),
    {
        -COORD_LIMIT <= self.x && self.x <= COORD_LIMIT && -COORD_LIMIT <= self.y && self.y <= COORD_LIMIT
            && -COORD_LIMIT <= self.z && self.z <= COORD_LIMIT
    }
}

/// Coordinate `axis` (0, 1 or 2) of `p`.
pub open spec fn coord(p: Position, axis: int) -> int {
    if axis == 0 {
        p.x as int
    } else if axis == 1 {
        p.y as int
    } else {
        p.z as int
    }
}

/// Sum of coordinate `axis` over the bodies of `c`.
pub open spec fn coord_sum(c: Seq<Body>, axis: int) -> int
    decreases c.len(),
{
    if c.len() == 0 {
        0
    } else {
        coord_sum(c.drop_last(), axis) + coord(c.last().position, axis)
    }
}

/// Square of `v`.
pub open spec fn sq(v: int) -> int {
    v * v
}

/// `p` lies strictly closer than the formation distance to the centroid of
/// `c`. With `n` members and coordinate sums `s`, the centroid is `s / n`, so
/// the test `|p - s / n| < d` is stated as `|n p - s|^2 < (n d)^2`.
pub open spec fn near(p: Position, c: Seq<Body>) -> bool {
    let n = c.len() as int;
    sq(n * p.x - coord_sum(c, 0)) + sq(n * p.y - coord_sum(c, 1)) + sq(n * p.z - coord_sum(c, 2))
        < sq(n * NUCLEUS_FORMATION_DISTANCE)
}

/// Index of the first cluster, from `i` on, that `p` is near; `cs.len()` if
/// there is none.
pub open spec fn first_near_from(cs: Seq<Seq<Body>>, p: Position, i: int) -> int
    decreases cs.len() - i,
{
    if i >= cs.len() {
        cs.len() as int
    } else if near(p, cs[i]) {
        i
    } else {
        first_near_from(cs, p, i + 1)
    }
}

/// Adds `b` to the first cluster it is near, or opens a new cluster for it.
pub open spec fn place(cs: Seq<Seq<Body>>, b: Body) -> Seq<Seq<Body>> {
    let k = first_near_from(cs, b.position, 0);
    if k < cs.len() {
        cs.update(k, cs[k].push(b))
    } else {
        cs.push(seq![b])
    }
}

/// Clusters built by placing each nucleon of `bodies` in turn.
pub open spec fn group(bodies: Seq<Body>) -> Seq<Seq<Body>>
    decreases bodies.len(),
{
    if bodies.len() == 0 {
        seq![]
    } else {
        let cs = group(bodies.drop_last());
        let b = bodies.last();
        if is_nucleon(b.kind) {
            place(cs, b)
        } else {
            cs
        }
    }
}

/// A nucleus has at least two nucleons.
pub open spec fn is_nucleus(c: Seq<Body>) -> bool {
    c.len() >= 2
}

/// The clusters of `cs` that are nuclei, in order.
pub open spec fn keep_nuclei(cs: Seq<Seq<Body>>) -> Seq<Seq<Body>> {
    cs.filter(|c: Seq<Body>| is_nucleus(c))
}

/// The candidate nuclei found among `bodies`, in the order they were opened.
pub open spec fn nuclei(bodies: Seq<Body>) -> Seq<Seq<Body>> {
    keep_nuclei(group(bodies))
}

/// The clusters of `v` as sequences.
pub open spec fn deep(v: Seq<Vec<Body>>) -> Seq<Seq<Body>> {
    v.map_values(|c: Vec<Body>| c@)
}

/// Every body of `c` lies within the clustering limit.
pub open spec fn all_in_bounds(c: Seq<Body>) -> bool {
    forall|j: int| 0 <= j < c.len() ==> in_bounds(#[trigger] c[j].position)
}

pub(crate) proof fn lemma_coord_sum_bound(c: Seq<Body>, axis: int)
    requires
        all_in_bounds(c),
    ensures
        -(c.len() * COORD_LIMIT) <= coord_sum(c, axis) <= c.len() * COORD_LIMIT,
    decreases c.len(),
{
    if c.len() > 0 {
        assert(in_bounds(c[c.len() - 1].position));
        lemma_coord_sum_bound(c.drop_last(), axis);
    }
}

/// Sum of coordinate `axis` over `c`.
pub(crate) fn coord_total(c: &Vec<Body>, axis: u8) -> (r: i128)
    requires
        c.len() <= MAX_BODIES,
        all_in_bounds(c@),
        axis < 3,
    ensures
        r == coord_sum(c@, axis as int),
{
    let mut s: i128 = 0;
    let mut j: usize = 0;
    while j < c.len()
        invariant
            j <= c.len() <= MAX_BODIES,
            all_in_bounds(c@),
            axis < 3,
            s == coord_sum(c@.take(j as int), axis as int),
        decreases c.len() - j,
    {
        proof {
            assert(c@.take(j as int + 1).drop_last() == c@.take(j as int));
            lemma_coord_sum_bound(c@.take(j as int), axis as int);
            assert(in_bounds(c@[j as int].position));
            assert(j * COORD_LIMIT <= MAX_BODIES * COORD_LIMIT) by (nonlinear_arith)
                requires
                    j <= MAX_BODIES,
            ;
        }
        let p = c[j].position;
        let v: i64 = if axis == 0 {
            p.x
        } else if axis == 1 {
            p.y
        } else {
            p.z
        };
        s = s + v as i128;
        j = j + 1;
    }
    assert(c@.take(c.len() as int) == c@);
    s
}

/// Square of an offset bounded by 2^61.
fn square(v: i128) -> (r: i128)
    requires
        -0x2000_0000_0000_0000 <= v <= 0x2000_0000_0000_0000,
    ensures
        r == sq(v as int),
        0 <= r <= 0x400_0000_0000_0000_0000_0000_0000_0000,
{
    assert(0 <= v * v <= 0x400_0000_0000_0000_0000_0000_0000_0000) by (nonlinear_arith)
        requires
            -0x2000_0000_0000_0000 <= v <= 0x2000_0000_0000_0000,
    ;
    v * v
}

/// Whether `p` lies closer than the formation distance to the centroid of `c`.
fn is_near(p: Position, c: &Vec<Body>) -> (r: bool)
    requires
        c.len() <= MAX_BODIES,
        all_in_bounds(c@),
        in_bounds(p),
    ensures
        r == near(p, c@),
{
    let n: i128 = c.len() as i128;
    let sx = coord_total(c, 0);
    let sy = coord_total(c, 1);
    let sz = coord_total(c, 2);
    proof {
        lemma_coord_sum_bound(c@, 0);
        lemma_coord_sum_bound(c@, 1);
        lemma_coord_sum_bound(c@, 2);
        assert(c.len() * COORD_LIMIT <= 0x1000_0000_0000_0000) by (nonlinear_arith)
            requires
                c.len() <= MAX_BODIES,
        ;
        assert(-0x1000_0000_0000_0000 <= n * p.x <= 0x1000_0000_0000_0000) by (nonlinear_arith)
            requires
                0 <= n <= MAX_BODIES,
                -COORD_LIMIT <= p.x <= COORD_LIMIT,
        ;
        assert(-0x1000_0000_0000_0000 <= n * p.y <= 0x1000_0000_0000_0000) by (nonlinear_arith)
            requires
                0 <= n <= MAX_BODIES,
                -COORD_LIMIT <= p.y <= COORD_LIMIT,
        ;
        assert(-0x1000_0000_0000_0000 <= n * p.z <= 0x1000_0000_0000_0000) by (nonlinear_arith)
            requires
                0 <= n <= MAX_BODIES,
                -COORD_LIMIT <= p.z <= COORD_LIMIT,
        ;
        assert(0 <= n * NUCLEUS_FORMATION_DISTANCE <= 0x1000_0000_0000_0000) by (nonlinear_arith)
            requires
                0 <= n <= MAX_BODIES,
        ;
    }
    let dx = square(n * p.x as i128 - sx);
    let dy = square(n * p.y as i128 - sy);
    let dz = square(n * p.z as i128 - sz);
    let limit = square(n * NUCLEUS_FORMATION_DISTANCE as i128);
    dx + dy + dz < limit
}

/// Index of the first cluster that `p` is near, or the number of clusters.
fn first_near(p: Position, cs: &Vec<Vec<Body>>) -> (r: usize)
    requires
        in_bounds(p),
        forall|k: int| 0 <= k < cs.len() ==> #[trigger] cs@[k].len() <= MAX_BODIES,
        forall|k: int| 0 <= k < cs.len() ==> all_in_bounds(#[trigger] cs@[k]@),
    ensures
        r == first_near_from(deep(cs@), p, 0),
{
    let mut k: usize = 0;
    while k < cs.len()
        invariant
            k <= cs.len(),
            in_bounds(p),
            forall|k: int| 0 <= k < cs.len() ==> #[trigger] cs@[k].len() <= MAX_BODIES,
            forall|k: int| 0 <= k < cs.len() ==> all_in_bounds(#[trigger] cs@[k]@),
            first_near_from(deep(cs@), p, 0) == first_near_from(deep(cs@), p, k as int),
        decreases cs.len() - k,
    {
        assert(deep(cs@)[k as int] == cs@[k as int]@);
        if is_near(p, &cs[k]) {
            return k;
        }
        k = k + 1;
    }
    k
}

/// Groups the protons and neutrons of `bodies`, in order, into candidate
/// nuclei. Each nucleon joins the first cluster whose current centroid lies
/// closer than the formation distance, or opens a cluster of its own;
/// clusters of fewer than two nucleons are then dropped.
pub fn find_nuclei(bodies: &Vec<Body>) -> (r: Vec<Vec<Body>>)
    requires
        bodies.len() <= MAX_BODIES,
        all_in_bounds(bodies@),
    ensures
        deep(r@) == nuclei(bodies@),
        r.len() <= bodies.len(),
        forall|k: int| 0 <= k < r.len() ==> 2 <= #[trigger] r@[k].len() <= bodies.len(),
        forall|k: int| 0 <= k < r.len() ==> all_in_bounds(#[trigger] r@[k]@),
{
    let mut clusters: Vec<Vec<Body>> = Vec::new();
    let mut i: usize = 0;
    while i < bodies.len()
        invariant
            i <= bodies.len() <= MAX_BODIES,
            all_in_bounds(bodies@),
            deep(clusters@) == group(bodies@.take(i as int)),
            forall|k: int| 0 <= k < clusters.len() ==> #[trigger] clusters@[k].len() <= i,
            forall|k: int| 0 <= k < clusters.len() ==> all_in_bounds(#[trigger] clusters@[k]@),
            clusters.len() <= i,
        decreases bodies.len() - i,
    {
        let b = bodies[i];
        proof {
            assert(bodies@.take(i as int + 1).drop_last() == bodies@.take(i as int));
            assert(bodies@.take(i as int + 1).last() == b);
            assert(in_bounds(bodies@[i as int].position));
        }
        let ghost before = deep(clusters@);
        let ghost old_cs = clusters@;
        if b.kind.is_nucleon() {
            let k = first_near(b.position, &clusters);
            if k < clusters.len() {
                clusters[k].push(b);
                proof {
                    assert forall|kk: int| 0 <= kk < clusters.len() implies #[trigger] clusters@[kk].len()
                        <= i + 1 && all_in_bounds(clusters@[kk]@) by {
                        if kk != k {
                            assert(clusters@[kk] == old_cs[kk]);
                        } else {
                            assert(clusters@[kk]@ == old_cs[kk]@.push(b));
                            assert(old_cs[kk].len() <= i);
                            assert(all_in_bounds(old_cs[kk]@));
                        }
                    }
                    assert(deep(clusters@) =~= before.update(k as int, before[k as int].push(b)));
                }
            } else {
                let single = vec![b];
                assert(single@ =~= seq![b]);
                clusters.push(single);
                proof {
                    assert forall|kk: int| 0 <= kk < clusters.len() implies #[trigger] clusters@[kk].len()
                        <= i + 1 && all_in_bounds(clusters@[kk]@) by {
                        if kk < old_cs.len() {
                            assert(clusters@[kk] == old_cs[kk]);
                        }
                    }
                    assert(deep(clusters@) =~= before.push(seq![b]));
                }
            }
        }
        i = i + 1;
    }
    assert(bodies@.take(bodies.len() as int) == bodies@);
    let ghost all = deep(clusters@);
    let mut out: Vec<Vec<Body>> = Vec::new();
    let mut j: usize = 0;
    let n = clusters.len();
    while j < n
        invariant
            j <= n == clusters.len(),
            all == deep(clusters@),
            deep(out@) == all.take(j as int).filter(|c: Seq<Body>| is_nucleus(c)),
            n <= bodies.len(),
            forall|k: int| 0 <= k < n ==> #[trigger] clusters@[k].len() <= bodies.len(),
            forall|k: int| 0 <= k < n ==> all_in_bounds(#[trigger] clusters@[k]@),
            out.len() <= j,
            forall|k: int| 0 <= k < out.len() ==> 2 <= #[trigger] out@[k].len() <= bodies.len(),
            forall|k: int| 0 <= k < out.len() ==> all_in_bounds(#[trigger] out@[k]@),
        decreases n - j,
    {
        let c = clusters[j].clone();
        proof {
            reveal(Seq::filter);
            assert(all.take(j as int + 1).drop_last() == all.take(j as int));
            assert(c@ =~= clusters@[j as int]@);
        }
        let ghost prev = deep(out@);
        if c.len() >= 2 {
            out.push(c);
            proof {
                assert(deep(out@) =~= prev.push(all[j as int]));
            }
        }
        j = j + 1;
    }
    assert(all.take(n as int) == all);
    out
}

/// Clustering depends on nothing but the ordered bodies it is given: two
/// passes over the same bodies yield the same nuclei, member for member.
pub proof fn lemma_clustering_deterministic(first: Seq<Body>, second: Seq<Body>)
    requires
        first == second,
    ensures
        nuclei(first) == nuclei(second),
        forall|k: int| 0 <= k < nuclei(first).len() ==> #[trigger] nuclei(first)[k] == nuclei(second)[k],
{
}

} // verus!
