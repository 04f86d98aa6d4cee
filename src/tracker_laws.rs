//! Properties of atom tracking: identity, selection, rejection of unknown
//! elements, and exclusive ownership of particles.

use vstd::prelude::*;

use crate::atom::AtomState;
use crate::cluster::{first_near_from, group, is_nucleus, keep_nuclei, nuclei, place, Body, Position};
use crate::element::valid_proton_count;
use crate::particle::{is_nucleon, Kind};
use crate::tracker::{
    atom_of, claimant_from, count_of, ids_ordered, nucleon_ids, overlaps, reconciled, reconciled_next_id, run, start,
    step, survivors, toggled, touches_selected, Pass,
};

verus! {

proof fn lemma_claimant_range(atoms: Seq<AtomState>, ids: Seq<u64>, i: int)
    requires
        0 <= i <= atoms.len(),
    ensures
        i <= claimant_from(atoms, ids, i) <= atoms.len(),
    decreases atoms.len() - i,
{
    if i < atoms.len() {
        lemma_claimant_range(atoms, ids, i + 1);
    }
}

proof fn lemma_survivors_none(atoms: Seq<AtomState>, active: Seq<bool>)
    requires
        forall|i: int| 0 <= i < active.len() ==> !active[i],
    ensures
        survivors(atoms, active) == Seq::<AtomState>::empty(),
    decreases atoms.len(),
{
    if atoms.len() > 0 && active.len() > 0 {
        lemma_survivors_none(atoms.drop_last(), active.drop_last());
    }
}

proof fn lemma_survivors_one(atoms: Seq<AtomState>, active: Seq<bool>, k: int)
    requires
        0 <= k < atoms.len() == active.len(),
        active[k],
        forall|i: int| 0 <= i < active.len() && i != k ==> !active[i],
    ensures
        survivors(atoms, active) == seq![atoms[k]],
    decreases atoms.len(),
{
    if k == atoms.len() - 1 {
        lemma_survivors_none(atoms.drop_last(), active.drop_last());
        assert(Seq::<AtomState>::empty().push(atoms[k]) =~= seq![atoms[k]]);
    } else {
        lemma_survivors_one(atoms.drop_last(), active.drop_last(), k);
    }
}

/// A nucleus whose proton count names no element leaves a frame as it was:
/// it makes no atom, claims none and selects none.
pub proof fn lemma_invalid_nucleus_ignored(p: Pass, cs: Seq<Seq<Body>>, c: Seq<Body>)
    requires
        !valid_proton_count(count_of(c, Kind::Proton) as int),
    ensures
        run(p, cs.push(c)) == run(p, cs),
{
    assert(cs.push(c).drop_last() == cs);
}

proof fn lemma_run_invalid(p: Pass, cs: Seq<Seq<Body>>)
    requires
        forall|k: int| 0 <= k < cs.len() ==> !valid_proton_count(count_of(#[trigger] cs[k], Kind::Proton) as int),
    ensures
        run(p, cs) == p,
    decreases cs.len(),
{
    if cs.len() > 0 {
        lemma_run_invalid(p, cs.drop_last());
        assert(!valid_proton_count(count_of(cs[cs.len() - 1], Kind::Proton) as int));
    }
}

/// A frame in which no nucleus has a proton count that names an element
/// produces no atom: none is created, and every tracked atom falls apart.
pub proof fn lemma_invalid_nuclei_make_no_atoms(atoms: Seq<AtomState>, next_id: int, cs: Seq<Seq<Body>>)
    requires
        forall|k: int| 0 <= k < cs.len() ==> !valid_proton_count(count_of(#[trigger] cs[k], Kind::Proton) as int),
    ensures
        reconciled(atoms, next_id, cs) == Seq::<AtomState>::empty(),
        reconciled_next_id(atoms, next_id, cs) == next_id,
{
    lemma_run_invalid(start(atoms, next_id), cs);
    lemma_survivors_none(atoms, start(atoms, next_id).active);
    assert(Seq::<AtomState>::empty() + Seq::<AtomState>::empty() =~= Seq::<AtomState>::empty());
}

/// An atom keeps its identity while its particles stay together: when a
/// frame's only nucleus has a valid proton count and shares a particle with
/// tracked atoms, the first of them is rebuilt from the nucleus under its own
/// id, it is the only atom left, and no id is used up.
pub proof fn lemma_identity_continuity(atoms: Seq<AtomState>, next_id: int, c: Seq<Body>)
    requires
        valid_proton_count(count_of(c, Kind::Proton) as int),
        claimant_from(atoms, nucleon_ids(c), 0) < atoms.len(),
    ensures
        ({
            let k = claimant_from(atoms, nucleon_ids(c), 0);
            reconciled(atoms, next_id, seq![c]) == seq![
                atom_of(atoms[k].id, c, touches_selected(atoms, nucleon_ids(c))),
            ]
        }),
        reconciled_next_id(atoms, next_id, seq![c]) == next_id,
{
    let cs = seq![c];
    let p0 = start(atoms, next_id);
    assert(cs.drop_last() =~= Seq::<Seq<Body>>::empty());
    assert(run(p0, cs.drop_last()) == p0);
    assert(cs.last() == c);
    let p = run(p0, cs);
    assert(p == step(p0, c));
    let k = claimant_from(atoms, nucleon_ids(c), 0);
    lemma_claimant_range(atoms, nucleon_ids(c), 0);
    assert(p.active == p0.active.update(k, true));
    lemma_survivors_one(p.atoms, p.active, k);
    assert(seq![p.atoms[k]] + Seq::<AtomState>::empty() =~= seq![p.atoms[k]]);
}

/// Selecting an atom that was not selected leaves it the one selected atom:
/// every atom is selected exactly when it carries that id, and exactly one
/// atom carries it.
pub proof fn lemma_selection_exclusive(atoms: Seq<AtomState>, bound: int, id: u64)
    requires
        ids_ordered(atoms, bound),
        exists|i: int| 0 <= i < atoms.len() && atoms[i].id == id && !atoms[i].selected,
    ensures
        toggled(atoms, id).len() == atoms.len(),
        forall|i: int| 0 <= i < atoms.len() ==> (#[trigger] toggled(atoms, id)[i].selected <==> toggled(atoms, id)[i].id == id),
        exists|i: int| 0 <= i < atoms.len() && #[trigger] toggled(atoms, id)[i].selected,
        forall|i: int, j: int| 0 <= i < atoms.len() && 0 <= j < atoms.len() && #[trigger] toggled(atoms, id)[i].selected && #[trigger] toggled(atoms, id)[j].selected ==> i == j,
{
    let i0 = choose|i: int| 0 <= i < atoms.len() && atoms[i].id == id && !atoms[i].selected;
    assert forall|i: int| 0 <= i < atoms.len() && atoms[i].id == id implies !atoms[i].selected by {
        if i < i0 {
            assert(atoms[i].id < atoms[i0].id);
        } else if i > i0 {
            assert(atoms[i0].id < atoms[i].id);
        }
    }
    let t = toggled(atoms, id);
    assert(t[i0].selected);
    assert forall|i: int, j: int| 0 <= i < atoms.len() && 0 <= j < atoms.len() && #[trigger] t[i].selected && #[trigger] t[j].selected implies i == j by {
        if i < j {
            assert(atoms[i].id < atoms[j].id);
        } else if j < i {
            assert(atoms[j].id < atoms[i].id);
        }
    }
}

/// No two of the nuclei share a particle.
pub open spec fn nuclei_disjoint(cs: Seq<Seq<Body>>) -> bool {
    forall|j1: int, j2: int|
        0 <= j1 < cs.len() && 0 <= j2 < cs.len() && j1 != j2 ==> !overlaps(
            nucleon_ids(#[trigger] cs[j1]),
            nucleon_ids(#[trigger] cs[j2]),
        )
}

/// No two of the atoms share a particle.
pub open spec fn atoms_disjoint(atoms: Seq<AtomState>) -> bool {
    forall|i: int, j: int|
        0 <= i < atoms.len() && 0 <= j < atoms.len() && i != j ==> !overlaps(
            (#[trigger] atoms[i]).constituents,
            (#[trigger] atoms[j]).constituents,
        )
}

/// The atom's particles are exactly those of one of the nuclei.
pub open spec fn from_nucleus(a: AtomState, cs: Seq<Seq<Body>>) -> bool {
    exists|j: int| 0 <= j < cs.len() && a.constituents == nucleon_ids(#[trigger] cs[j])
}

/// What holds of a pass over the nuclei `cs`: every atom it has claimed or
/// created carries the particles of one of them, and no two such atoms share
/// a particle.
spec fn pass_sound(p: Pass, cs: Seq<Seq<Body>>) -> bool {
    &&& p.atoms.len() == p.active.len()
    &&& forall|m: int| 0 <= m < p.atoms.len() && #[trigger] p.active[m] ==> from_nucleus(p.atoms[m], cs)
    &&& forall|c: int| 0 <= c < p.created.len() ==> from_nucleus(#[trigger] p.created[c], cs)
    &&& forall|m1: int, m2: int|
        0 <= m1 < p.atoms.len() && 0 <= m2 < p.atoms.len() && m1 != m2 && #[trigger] p.active[m1]
            && #[trigger] p.active[m2] ==> !overlaps(p.atoms[m1].constituents, p.atoms[m2].constituents)
    &&& forall|m: int, c: int|
        0 <= m < p.atoms.len() && 0 <= c < p.created.len() && #[trigger] p.active[m] ==> !overlaps(
            p.atoms[m].constituents,
            (#[trigger] p.created[c]).constituents,
        )
    &&& atoms_disjoint(p.created)
}

proof fn lemma_overlaps_symmetric(a: Seq<u64>, b: Seq<u64>)
    ensures
        overlaps(a, b) == overlaps(b, a),
{
    if overlaps(a, b) {
        let (i, j) = choose|i: int, j: int| 0 <= i < a.len() && 0 <= j < b.len() && a[i] == b[j];
        assert(0 <= j < b.len() && 0 <= i < a.len() && b[j] == a[i]);
    }
    if overlaps(b, a) {
        let (j, i) = choose|j: int, i: int| 0 <= j < b.len() && 0 <= i < a.len() && b[j] == a[i];
        assert(0 <= i < a.len() && 0 <= j < b.len() && a[i] == b[j]);
    }
}

/// An atom carrying the particles of an earlier nucleus shares none with the
/// next one.
proof fn lemma_apart_from_next(a: AtomState, cs: Seq<Seq<Body>>, c: Seq<Body>)
    requires
        from_nucleus(a, cs),
        nuclei_disjoint(cs.push(c)),
    ensures
        !overlaps(a.constituents, nucleon_ids(c)),
        !overlaps(nucleon_ids(c), a.constituents),
        from_nucleus(a, cs.push(c)),
{
    let j = choose|j: int| 0 <= j < cs.len() && a.constituents == nucleon_ids(#[trigger] cs[j]);
    let all = cs.push(c);
    assert(all[j] == cs[j]);
    assert(all[cs.len() as int] == c);
    assert(!overlaps(nucleon_ids(all[j]), nucleon_ids(all[cs.len() as int])));
    lemma_overlaps_symmetric(a.constituents, nucleon_ids(c));
}

proof fn lemma_step_sound(p: Pass, cs: Seq<Seq<Body>>, c: Seq<Body>)
    requires
        pass_sound(p, cs),
        nuclei_disjoint(cs.push(c)),
    ensures
        pass_sound(step(p, c), cs.push(c)),
{
    let all = cs.push(c);
    assert(all[cs.len() as int] == c);
    let ids = nucleon_ids(c);
    assert(from_nucleus(atom_of(0, c, false), all)) by {
        assert(atom_of(0, c, false).constituents == nucleon_ids(all[cs.len() as int]));
    }
    assert forall|m: int| 0 <= m < p.atoms.len() && #[trigger] p.active[m] implies !overlaps(
        p.atoms[m].constituents,
        ids,
    ) && !overlaps(ids, p.atoms[m].constituents) && from_nucleus(p.atoms[m], all) by {
        lemma_apart_from_next(p.atoms[m], cs, c);
    }
    assert forall|x: int| 0 <= x < p.created.len() implies !overlaps((#[trigger] p.created[x]).constituents, ids)
        && !overlaps(ids, p.created[x].constituents) && from_nucleus(p.created[x], all) by {
        lemma_apart_from_next(p.created[x], cs, c);
    }
    let q = step(p, c);
    if valid_proton_count(count_of(c, Kind::Proton) as int) {
        let sel = touches_selected(p.atoms, ids);
        let k = claimant_from(p.atoms, ids, 0);
        lemma_claimant_range(p.atoms, ids, 0);
        if k < p.atoms.len() {
            let fresh = atom_of(p.atoms[k].id, c, sel);
            assert(fresh.constituents == ids);
            assert(from_nucleus(fresh, all)) by {
                assert(fresh.constituents == nucleon_ids(all[cs.len() as int]));
            }
            assert(q.atoms == p.atoms.update(k, fresh));
            assert(q.active == p.active.update(k, true));
        } else {
            let fresh = atom_of(p.next_id as u64, c, sel);
            assert(from_nucleus(fresh, all)) by {
                assert(fresh.constituents == nucleon_ids(all[cs.len() as int]));
            }
            assert(q.created == p.created.push(fresh));
            assert forall|x: int, y: int|
                0 <= x < q.created.len() && 0 <= y < q.created.len() && x != y implies !overlaps(
                (#[trigger] q.created[x]).constituents,
                (#[trigger] q.created[y]).constituents,
            ) by {
                if x < p.created.len() && y < p.created.len() {
                    assert(q.created[x] == p.created[x]);
                    assert(q.created[y] == p.created[y]);
                } else if x < p.created.len() {
                    assert(q.created[x] == p.created[x]);
                } else {
                    assert(q.created[y] == p.created[y]);
                }
            }
        }
    } else {
        assert forall|x: int| 0 <= x < q.created.len() implies from_nucleus(#[trigger] q.created[x], all) by {
            lemma_apart_from_next(p.created[x], cs, c);
        }
    }
}

proof fn lemma_run_sound(atoms: Seq<AtomState>, next_id: int, cs: Seq<Seq<Body>>)
    requires
        nuclei_disjoint(cs),
    ensures
        pass_sound(run(start(atoms, next_id), cs), cs),
    decreases cs.len(),
{
    if cs.len() == 0 {
    } else {
        let rest = cs.drop_last();
        assert(rest.push(cs.last()) == cs);
        assert forall|j1: int, j2: int| 0 <= j1 < rest.len() && 0 <= j2 < rest.len() && j1 != j2 implies !overlaps(
            nucleon_ids(#[trigger] rest[j1]),
            nucleon_ids(#[trigger] rest[j2]),
        ) by {
            assert(rest[j1] == cs[j1]);
            assert(rest[j2] == cs[j2]);
        }
        lemma_run_sound(atoms, next_id, rest);
        lemma_step_sound(run(start(atoms, next_id), rest), rest, cs.last());
    }
}

/// `a` is one of the first `bound` atoms that are marked active.
spec fn active_among(a: AtomState, atoms: Seq<AtomState>, active: Seq<bool>, bound: int) -> bool {
    exists|m: int| 0 <= m < bound && active[m] && a == atoms[m]
}

proof fn lemma_survivors_sound(atoms: Seq<AtomState>, active: Seq<bool>, cs: Seq<Seq<Body>>)
    requires
        atoms.len() == active.len(),
        forall|m1: int, m2: int|
            0 <= m1 < atoms.len() && 0 <= m2 < atoms.len() && m1 != m2 && #[trigger] active[m1]
                && #[trigger] active[m2] ==> !overlaps(atoms[m1].constituents, atoms[m2].constituents),
    ensures
        atoms_disjoint(survivors(atoms, active)),
        forall|k: int|
            0 <= k < survivors(atoms, active).len() ==> active_among(
                #[trigger] survivors(atoms, active)[k],
                atoms,
                active,
                atoms.len() as int,
            ),
    decreases atoms.len(),
{
    if atoms.len() > 0 {
        let ra = atoms.drop_last();
        let rb = active.drop_last();
        let last = atoms.len() - 1;
        assert forall|m1: int, m2: int|
            0 <= m1 < ra.len() && 0 <= m2 < ra.len() && m1 != m2 && #[trigger] rb[m1] && #[trigger] rb[m2] implies !overlaps(
            ra[m1].constituents,
            ra[m2].constituents,
        ) by {
            assert(rb[m1] == active[m1] && ra[m1] == atoms[m1]);
            assert(rb[m2] == active[m2] && ra[m2] == atoms[m2]);
        }
        lemma_survivors_sound(ra, rb, cs);
        let rs = survivors(ra, rb);
        let all = survivors(atoms, active);
        assert forall|k: int| 0 <= k < rs.len() implies active_among(#[trigger] rs[k], atoms, active, last) by {
            assert(active_among(rs[k], ra, rb, ra.len() as int));
            let m = choose|m: int| 0 <= m < ra.len() && rb[m] && rs[k] == ra[m];
            assert(rb[m] == active[m] && ra[m] == atoms[m]);
        }
        if active[last] {
            assert(all == rs.push(atoms[last]));
            assert forall|k: int| 0 <= k < all.len() implies active_among(
                #[trigger] all[k],
                atoms,
                active,
                atoms.len() as int,
            ) by {
                if k < rs.len() {
                    assert(all[k] == rs[k]);
                    assert(active_among(rs[k], atoms, active, last));
                } else {
                    assert(all[k] == atoms[last]);
                }
            }
            assert forall|i: int, j: int| 0 <= i < all.len() && 0 <= j < all.len() && i != j implies !overlaps(
                (#[trigger] all[i]).constituents,
                (#[trigger] all[j]).constituents,
            ) by {
                if i < rs.len() && j < rs.len() {
                    assert(all[i] == rs[i] && all[j] == rs[j]);
                } else if i < rs.len() {
                    assert(active_among(rs[i], atoms, active, last));
                    let m = choose|m: int| 0 <= m < last && active[m] && rs[i] == atoms[m];
                    assert(all[i] == atoms[m] && all[j] == atoms[last]);
                } else {
                    assert(active_among(rs[j], atoms, active, last));
                    let m = choose|m: int| 0 <= m < last && active[m] && rs[j] == atoms[m];
                    assert(all[j] == atoms[m] && all[i] == atoms[last]);
                }
            }
        } else {
            assert(all == rs);
            assert forall|k: int| 0 <= k < all.len() implies active_among(
                #[trigger] all[k],
                atoms,
                active,
                atoms.len() as int,
            ) by {
                assert(active_among(rs[k], atoms, active, last));
                let m = choose|m: int| 0 <= m < last && active[m] && rs[k] == atoms[m];
                assert(all[k] == atoms[m]);
            }
        }
    }
}

/// After a frame whose nuclei share no particle with one another, every atom
/// carries exactly the particles of one of those nuclei, and no two atoms
/// share a particle.
pub proof fn lemma_no_shared_particles(atoms: Seq<AtomState>, next_id: int, cs: Seq<Seq<Body>>)
    requires
        nuclei_disjoint(cs),
    ensures
        atoms_disjoint(reconciled(atoms, next_id, cs)),
        forall|i: int|
            0 <= i < reconciled(atoms, next_id, cs).len() ==> from_nucleus(
                #[trigger] reconciled(atoms, next_id, cs)[i],
                cs,
            ),
{
    let p = run(start(atoms, next_id), cs);
    lemma_run_sound(atoms, next_id, cs);
    lemma_survivors_sound(p.atoms, p.active, cs);
    let kept = survivors(p.atoms, p.active);
    let all = reconciled(atoms, next_id, cs);
    assert(all == kept + p.created);
    assert forall|i: int| 0 <= i < all.len() implies from_nucleus(#[trigger] all[i], cs) by {
        if i < kept.len() {
            assert(active_among(kept[i], p.atoms, p.active, p.atoms.len() as int));
            let m = choose|m: int| 0 <= m < p.atoms.len() && p.active[m] && kept[i] == p.atoms[m];
            assert(all[i] == p.atoms[m]);
        } else {
            assert(all[i] == p.created[i - kept.len()]);
        }
    }
    assert forall|i: int, j: int| 0 <= i < all.len() && 0 <= j < all.len() && i != j implies !overlaps(
        (#[trigger] all[i]).constituents,
        (#[trigger] all[j]).constituents,
    ) by {
        if i < kept.len() && j < kept.len() {
            assert(all[i] == kept[i] && all[j] == kept[j]);
        } else if i >= kept.len() && j >= kept.len() {
            assert(all[i] == p.created[i - kept.len()] && all[j] == p.created[j - kept.len()]);
        } else if i < kept.len() {
            assert(active_among(kept[i], p.atoms, p.active, p.atoms.len() as int));
            let m = choose|m: int| 0 <= m < p.atoms.len() && p.active[m] && kept[i] == p.atoms[m];
            assert(all[i] == p.atoms[m] && all[j] == p.created[j - kept.len()]);
        } else {
            assert(active_among(kept[j], p.atoms, p.active, p.atoms.len() as int));
            let m = choose|m: int| 0 <= m < p.atoms.len() && p.active[m] && kept[j] == p.atoms[m];
            assert(all[j] == p.atoms[m] && all[i] == p.created[i - kept.len()]);
            lemma_overlaps_symmetric(all[i].constituents, all[j].constituents);
        }
    }
}

/// Bodies carry distinct ids.
pub open spec fn ids_unique(bodies: Seq<Body>) -> bool {
    forall|i: int, j: int| 0 <= i < bodies.len() && 0 <= j < bodies.len() && i != j ==> (#[trigger] bodies[i]).id != (#[trigger] bodies[j]).id
}

/// Some body of `bodies` carries `id`.
spec fn id_among(id: u64, bodies: Seq<Body>) -> bool {
    exists|u: int| 0 <= u < bodies.len() && (#[trigger] bodies[u]).id == id
}

/// Every member of every cluster carries the id of some body.
spec fn members_among(cs: Seq<Seq<Body>>, bodies: Seq<Body>) -> bool {
    forall|j: int, t: int| 0 <= j < cs.len() && 0 <= t < cs[j].len() ==> id_among((#[trigger] cs[j][t]).id, bodies)
}

proof fn lemma_ids_push(c: Seq<Body>, b: Body)
    ensures
        nucleon_ids(c.push(b)) == nucleon_ids(c).push(b.id),
{
    assert(nucleon_ids(c.push(b)) =~= nucleon_ids(c).push(b.id));
}

/// A cluster that has no member with id `id` keeps apart from every cluster
/// that shares no particle with it after `b` (carrying `id`) joins it.
proof fn lemma_apart_after_join(c: Seq<Body>, b: Body, other: Seq<Body>)
    requires
        !overlaps(nucleon_ids(c), nucleon_ids(other)),
        forall|t: int| 0 <= t < other.len() ==> (#[trigger] other[t]).id != b.id,
    ensures
        !overlaps(nucleon_ids(c.push(b)), nucleon_ids(other)),
        !overlaps(nucleon_ids(other), nucleon_ids(c.push(b))),
{
    lemma_ids_push(c, b);
    let (a, o) = (nucleon_ids(c.push(b)), nucleon_ids(other));
    if overlaps(a, o) {
        let (i, t) = choose|i: int, t: int| 0 <= i < a.len() && 0 <= t < o.len() && a[i] == o[t];
        if i < c.len() {
            assert(nucleon_ids(c)[i] == a[i]);
        } else {
            assert(o[t] == other[t].id);
        }
    }
    lemma_overlaps_symmetric(a, o);
}

proof fn lemma_group_disjoint(bodies: Seq<Body>)
    requires
        ids_unique(bodies),
    ensures
        nuclei_disjoint(group(bodies)),
        members_among(group(bodies), bodies),
    decreases bodies.len(),
{
    if bodies.len() > 0 {
        let prefix = bodies.drop_last();
        let b = bodies.last();
        assert forall|i: int, j: int| 0 <= i < prefix.len() && 0 <= j < prefix.len() && i != j implies (#[trigger] prefix[i]).id
            != (#[trigger] prefix[j]).id by {
            assert(prefix[i] == bodies[i] && prefix[j] == bodies[j]);
        }
        lemma_group_disjoint(prefix);
        let cs = group(prefix);
        assert forall|j: int, t: int| 0 <= j < cs.len() && 0 <= t < cs[j].len() implies (#[trigger] cs[j][t]).id != b.id && id_among(
            cs[j][t].id,
            bodies,
        ) by {
            assert(id_among(cs[j][t].id, prefix));
            let u = choose|u: int| 0 <= u < prefix.len() && (#[trigger] prefix[u]).id == cs[j][t].id;
            assert(prefix[u] == bodies[u]);
            assert(bodies[bodies.len() - 1] == b);
        }
        assert(id_among(b.id, bodies)) by {
            assert(bodies[bodies.len() - 1] == b);
        }
        if is_nucleon(b.kind) {
            let k = first_near_from(cs, b.position, 0);
            lemma_first_near_range(cs, b.position, 0);
            let out = place(cs, b);
            if k < cs.len() {
                assert(out == cs.update(k, cs[k].push(b)));
                assert forall|j1: int, j2: int| 0 <= j1 < out.len() && 0 <= j2 < out.len() && j1 != j2 implies !overlaps(
                    nucleon_ids(#[trigger] out[j1]),
                    nucleon_ids(#[trigger] out[j2]),
                ) by {
                    if j1 == k {
                        lemma_apart_after_join(cs[k], b, cs[j2]);
                    } else if j2 == k {
                        lemma_apart_after_join(cs[k], b, cs[j1]);
                    }
                }
                assert forall|j: int, t: int| 0 <= j < out.len() && 0 <= t < out[j].len() implies id_among(
                    (#[trigger] out[j][t]).id,
                    bodies,
                ) by {
                    if j == k && t == cs[k].len() {
                        assert(out[j][t] == b);
                    } else {
                        assert(out[j][t] == cs[j][t]);
                    }
                }
            } else {
                assert(out == cs.push(seq![b]));
                let single = seq![b];
                assert(nucleon_ids(single) =~= Seq::<u64>::empty().push(b.id));
                assert forall|j1: int, j2: int| 0 <= j1 < out.len() && 0 <= j2 < out.len() && j1 != j2 implies !overlaps(
                    nucleon_ids(#[trigger] out[j1]),
                    nucleon_ids(#[trigger] out[j2]),
                ) by {
                    if j1 == cs.len() {
                        assert(Seq::<Body>::empty().push(b) == single);
                        assert(!overlaps(nucleon_ids(Seq::<Body>::empty()), nucleon_ids(cs[j2])));
                        lemma_apart_after_join(Seq::<Body>::empty(), b, cs[j2]);
                    } else if j2 == cs.len() {
                        assert(Seq::<Body>::empty().push(b) == single);
                        assert(!overlaps(nucleon_ids(Seq::<Body>::empty()), nucleon_ids(cs[j1])));
                        lemma_apart_after_join(Seq::<Body>::empty(), b, cs[j1]);
                    } else {
                        assert(out[j1] == cs[j1] && out[j2] == cs[j2]);
                    }
                }
                assert forall|j: int, t: int| 0 <= j < out.len() && 0 <= t < out[j].len() implies id_among(
                    (#[trigger] out[j][t]).id,
                    bodies,
                ) by {
                    if j == cs.len() {
                        assert(out[j][t] == b);
                    } else {
                        assert(out[j][t] == cs[j][t]);
                    }
                }
            }
        } else {
            assert forall|j: int, t: int| 0 <= j < cs.len() && 0 <= t < cs[j].len() implies id_among(
                (#[trigger] cs[j][t]).id,
                bodies,
            ) by {}
        }
    }
}

proof fn lemma_first_near_range(cs: Seq<Seq<Body>>, p: Position, i: int)
    requires
        0 <= i <= cs.len(),
    ensures
        i <= first_near_from(cs, p, i) <= cs.len(),
    decreases cs.len() - i,
{
    if i < cs.len() {
        lemma_first_near_range(cs, p, i + 1);
    }
}

/// `c` is one of the first `bound` clusters of `cs`.
spec fn cluster_among(c: Seq<Body>, cs: Seq<Seq<Body>>, bound: int) -> bool {
    exists|m: int| 0 <= m < bound && c == cs[m]
}

proof fn lemma_filter_disjoint(cs: Seq<Seq<Body>>)
    requires
        nuclei_disjoint(cs),
    ensures
        nuclei_disjoint(keep_nuclei(cs)),
        forall|k: int|
            0 <= k < keep_nuclei(cs).len() ==> cluster_among(
                #[trigger] keep_nuclei(cs)[k],
                cs,
                cs.len() as int,
            ),
    decreases cs.len(),
{
    reveal(Seq::filter);
    let pred = |c: Seq<Body>| is_nucleus(c);
    if cs.len() > 0 {
        let rest = cs.drop_last();
        let last = cs.len() - 1;
        assert forall|j1: int, j2: int| 0 <= j1 < rest.len() && 0 <= j2 < rest.len() && j1 != j2 implies !overlaps(
            nucleon_ids(#[trigger] rest[j1]),
            nucleon_ids(#[trigger] rest[j2]),
        ) by {
            assert(rest[j1] == cs[j1] && rest[j2] == cs[j2]);
        }
        lemma_filter_disjoint(rest);
        let rs = keep_nuclei(rest);
        let all = keep_nuclei(cs);
        assert forall|k: int| 0 <= k < rs.len() implies cluster_among(#[trigger] rs[k], cs, last) by {
            assert(cluster_among(rs[k], rest, rest.len() as int));
            let m = choose|m: int| 0 <= m < rest.len() && rs[k] == rest[m];
            assert(rest[m] == cs[m]);
        }
        if pred(cs.last()) {
            assert(all == rs.push(cs[last]));
            assert forall|k: int| 0 <= k < all.len() implies cluster_among(#[trigger] all[k], cs, cs.len() as int) by {
                if k < rs.len() {
                    assert(all[k] == rs[k]);
                    assert(cluster_among(rs[k], cs, last));
                } else {
                    assert(all[k] == cs[last]);
                }
            }
            assert forall|j1: int, j2: int| 0 <= j1 < all.len() && 0 <= j2 < all.len() && j1 != j2 implies !overlaps(
                nucleon_ids(#[trigger] all[j1]),
                nucleon_ids(#[trigger] all[j2]),
            ) by {
                if j1 < rs.len() && j2 < rs.len() {
                    assert(all[j1] == rs[j1] && all[j2] == rs[j2]);
                } else if j1 < rs.len() {
                    assert(cluster_among(rs[j1], cs, last));
                    let m = choose|m: int| 0 <= m < last && rs[j1] == cs[m];
                    assert(all[j1] == cs[m] && all[j2] == cs[last]);
                } else {
                    assert(cluster_among(rs[j2], cs, last));
                    let m = choose|m: int| 0 <= m < last && rs[j2] == cs[m];
                    assert(all[j2] == cs[m] && all[j1] == cs[last]);
                }
            }
        } else {
            assert(all == rs);
            assert forall|k: int| 0 <= k < all.len() implies cluster_among(#[trigger] all[k], cs, cs.len() as int) by {
                assert(cluster_among(rs[k], cs, last));
                let m = choose|m: int| 0 <= m < last && rs[k] == cs[m];
            }
        }
    }
}

/// Particles with distinct ids are never shared: the nuclei found among
/// such bodies share no particle, and after a frame of atom detection on
/// them no two atoms share a particle, each carrying exactly the particles
/// of one nucleus.
pub proof fn lemma_detection_keeps_particles_apart(atoms: Seq<AtomState>, next_id: int, bodies: Seq<Body>)
    requires
        ids_unique(bodies),
    ensures
        nuclei_disjoint(nuclei(bodies)),
        atoms_disjoint(reconciled(atoms, next_id, nuclei(bodies))),
        forall|i: int|
            0 <= i < reconciled(atoms, next_id, nuclei(bodies)).len() ==> from_nucleus(
                #[trigger] reconciled(atoms, next_id, nuclei(bodies))[i],
                nuclei(bodies),
            ),
{
    lemma_group_disjoint(bodies);
    lemma_filter_disjoint(group(bodies));
    lemma_no_shared_particles(atoms, next_id, nuclei(bodies));
}

} // verus!
