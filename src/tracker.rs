//! Per-frame reconciliation of nuclei with tracked atoms, and selection.

use vstd::prelude::*;

use crate::atom::{views, with_selected, Atom, AtomRecord, AtomState};
use crate::cluster::{
    all_in_bounds, coord_sum, deep, find_nuclei, lemma_coord_sum_bound, nuclei, Body, Position, MAX_BODIES,
};
use crate::element::{element_for, valid_proton_count};
use crate::fixed::div_toward_zero;
use crate::particle::Kind;

verus! {

/// Ids of the members of a cluster, in order.
pub open spec fn nucleon_ids(c: Seq<Body>) -> Seq<u64> {
    c.map_values(|b: Body| b.id)
}

/// Number of members of `c` of kind `k`.
pub open spec fn count_of(c: Seq<Body>, k: Kind) -> nat
    decreases c.len(),
{
    if c.len() == 0 {
        0
    } else {
        count_of(c.drop_last(), k) + if c.last().kind == k {
            1nat
        } else {
            0nat
        }
    }
}

/// The two id lists share an id.
pub open spec fn overlaps(a: Seq<u64>, b: Seq<u64>) -> bool {
    exists|i: int, j: int| 0 <= i < a.len() && 0 <= j < b.len() && a[i] == b[j]
}

/// Mean position of the members of `c`, each coordinate rounded toward zero.
pub open spec fn centroid(c: Seq<Body>) -> Position {
    Position {
        x: div_toward_zero(coord_sum(c, 0), c.len() as int) as i64,
        y: div_toward_zero(coord_sum(c, 1), c.len() as int) as i64,
        z: div_toward_zero(coord_sum(c, 2), c.len() as int) as i64,
    }
}

/// The atom that cluster `c` makes under identity `id`.
pub open spec fn atom_of(id: u64, c: Seq<Body>, selected: bool) -> AtomState {
    AtomState {
        id,
        element: element_for(count_of(c, Kind::Proton) as usize).unwrap(),
        proton_count: count_of(c, Kind::Proton) as u32,
        neutron_count: count_of(c, Kind::Neutron) as u32,
        electron_count: 0,
        constituents: nucleon_ids(c),
        center: centroid(c),
        selected,
    }
}

/// Index of the first atom, from `i` on, that shares a particle with `ids`;
/// `atoms.len()` if there is none.
pub open spec fn claimant_from(atoms: Seq<AtomState>, ids: Seq<u64>, i: int) -> int
    decreases atoms.len() - i,
{
    if i >= atoms.len() {
        atoms.len() as int
    } else if overlaps(atoms[i].constituents, ids) {
        i
    } else {
        claimant_from(atoms, ids, i + 1)
    }
}

/// Some selected atom shares a particle with `ids`.
pub open spec fn touches_selected(atoms: Seq<AtomState>, ids: Seq<u64>) -> bool {
    exists|j: int| 0 <= j < atoms.len() && atoms[j].selected && overlaps(atoms[j].constituents, ids)
}

/// State of one reconciliation pass: the atoms that existed before it (some
/// already updated), which of them a cluster has claimed, the atoms created
/// so far, and the next free id.
pub struct Pass {
    pub atoms: Seq<AtomState>,
    pub active: Seq<bool>,
    pub created: Seq<AtomState>,
    pub next_id: int,
}

/// Reconciles one cluster. A cluster whose proton count names no element is
/// skipped. Otherwise the first existing atom sharing a particle with it is
/// rebuilt from the cluster under its own id and marked active, or, if none
/// does, a new atom is created under the next id. Either way the atom is
/// selected exactly when some selected atom shares a particle with the
/// cluster.
pub open spec fn step(p: Pass, c: Seq<Body>) -> Pass {
    if !valid_proton_count(count_of(c, Kind::Proton) as int) {
        p
    } else {
        let ids = nucleon_ids(c);
        let sel = touches_selected(p.atoms, ids);
        let k = claimant_from(p.atoms, ids, 0);
        if k < p.atoms.len() {
            Pass {
                atoms: p.atoms.update(k, atom_of(p.atoms[k].id, c, sel)),
                active: p.active.update(k, true),
                ..p
            }
        } else {
            Pass { created: p.created.push(atom_of(p.next_id as u64, c, sel)), next_id: p.next_id + 1, ..p }
        }
    }
}

/// Reconciles the clusters of `cs` in order.
pub open spec fn run(p: Pass, cs: Seq<Seq<Body>>) -> Pass
    decreases cs.len(),
{
    if cs.len() == 0 {
        p
    } else {
        step(run(p, cs.drop_last()), cs.last())
    }
}

/// The atoms marked active, in order.
pub open spec fn survivors(atoms: Seq<AtomState>, active: Seq<bool>) -> Seq<AtomState>
    decreases atoms.len(),
{
    if atoms.len() == 0 || active.len() == 0 {
        seq![]
    } else {
        let rest = survivors(atoms.drop_last(), active.drop_last());
        if active.last() {
            rest.push(atoms.last())
        } else {
            rest
        }
    }
}

/// Pass state before any cluster is reconciled.
pub open spec fn start(atoms: Seq<AtomState>, next_id: int) -> Pass {
    Pass { atoms, active: Seq::new(atoms.len(), |i: int| false), created: seq![], next_id }
}

/// Atoms after a frame: the existing atoms that some cluster claimed,
/// updated and in their old order, then the atoms created this frame.
pub open spec fn reconciled(atoms: Seq<AtomState>, next_id: int, cs: Seq<Seq<Body>>) -> Seq<AtomState> {
    let p = run(start(atoms, next_id), cs);
    survivors(p.atoms, p.active) + p.created
}

/// Next free id after a frame.
pub open spec fn reconciled_next_id(atoms: Seq<AtomState>, next_id: int, cs: Seq<Seq<Body>>) -> int {
    run(start(atoms, next_id), cs).next_id
}

/// The atom's element is the one its proton count names.
pub open spec fn classified(a: AtomState) -> bool {
    element_for(a.proton_count as usize) == Some(a.element)
}

/// Ids strictly increase along `atoms` and stay below `bound`.
pub open spec fn ids_ordered(atoms: Seq<AtomState>, bound: int) -> bool {
    &&& forall|i: int, j: int| 0 <= i < j < atoms.len() ==> atoms[i].id < atoms[j].id
    &&& forall|i: int| 0 <= i < atoms.len() ==> atoms[i].id < bound
}

/// Number of members of `c` of kind `k`.
fn count_kind(c: &Vec<Body>, k: Kind) -> (r: u32)
    requires
        c.len() <= MAX_BODIES,
    ensures
        r == count_of(c@, k),
        r <= c.len(),
{
    let mut n: u32 = 0;
    let mut j: usize = 0;
    while j < c.len()
        invariant
            j <= c.len() <= MAX_BODIES,
            n == count_of(c@.take(j as int), k),
            n <= j,
        decreases c.len() - j,
    {
        assert(c@.take(j as int + 1).drop_last() == c@.take(j as int));
        if c[j].kind == k {
            n = n + 1;
        }
        j = j + 1;
    }
    assert(c@.take(c.len() as int) == c@);
    n
}

/// Ids of the members of `c`, in order.
fn ids_of(c: &Vec<Body>) -> (r: Vec<u64>)
    ensures
        r@ == nucleon_ids(c@),
{
    let mut r: Vec<u64> = Vec::new();
    let mut j: usize = 0;
    while j < c.len()
        invariant
            j <= c.len(),
            r@ =~= nucleon_ids(c@.take(j as int)),
        decreases c.len() - j,
    {
        r.push(c[j].id);
        j = j + 1;
    }
    assert(c@.take(c.len() as int) == c@);
    r
}

/// Whether the two id lists share an id.
fn share(a: &Vec<u64>, b: &Vec<u64>) -> (r: bool)
    ensures
        r == overlaps(a@, b@),
{
    let mut i: usize = 0;
    while i < a.len()
        invariant
            i <= a.len(),
            forall|x: int, y: int| 0 <= x < i && 0 <= y < b.len() ==> a@[x] != b@[y],
        decreases a.len() - i,
    {
        let mut j: usize = 0;
        while j < b.len()
            invariant
                i < a.len(),
                j <= b.len(),
                forall|x: int, y: int| 0 <= x < i && 0 <= y < b.len() ==> a@[x] != b@[y],
                forall|y: int| 0 <= y < j ==> a@[i as int] != b@[y],
            decreases b.len() - j,
        {
            if a[i] == b[j] {
                return true;
            }
            j = j + 1;
        }
        i = i + 1;
    }
    false
}

/// `s / n` rounded toward zero, for a sum `s` of `n` bounded coordinates.
fn mean(s: i128, n: i128) -> (r: i64)
    requires
        1 <= n <= MAX_BODIES,
        -(n * crate::cluster::COORD_LIMIT) <= s <= n * crate::cluster::COORD_LIMIT,
    ensures
        r == div_toward_zero(s as int, n as int),
{
    let lim = crate::cluster::COORD_LIMIT as i128;
    if s >= 0 {
        assert((s as int) / (n as int) <= lim as int) by (nonlinear_arith)
            requires
                1 <= n,
                0 <= s <= n * lim,
        ;
        (s / n) as i64
    } else {
        assert((-(s as int)) / (n as int) <= lim as int) by (nonlinear_arith)
            requires
                1 <= n,
                0 <= -s <= n * lim,
        ;
        -(((-s) / n) as i64)
    }
}

/// Mean position of the members of a non-empty cluster.
fn center_of(c: &Vec<Body>) -> (r: Position)
    requires
        1 <= c.len() <= MAX_BODIES,
        all_in_bounds(c@),
    ensures
        r == centroid(c@),
{
    let n = c.len() as i128;
    proof {
        lemma_coord_sum_bound(c@, 0);
        lemma_coord_sum_bound(c@, 1);
        lemma_coord_sum_bound(c@, 2);
    }
    let x = mean(crate::cluster::coord_total(c, 0), n);
    let y = mean(crate::cluster::coord_total(c, 1), n);
    let z = mean(crate::cluster::coord_total(c, 2), n);
    Position { x, y, z }
}

/// A copy of `r`.
fn copy_record(r: &AtomRecord) -> (c: AtomRecord)
    ensures
        c@ == r@,
{
    let parts = r.atom.constituent_particles.clone();
    assert(parts@ =~= r.atom.constituent_particles@);
    AtomRecord {
        id: r.id,
        atom: Atom {
            element: r.atom.element,
            proton_count: r.atom.proton_count,
            neutron_count: r.atom.neutron_count,
            electron_count: r.atom.electron_count,
            constituent_particles: parts,
        },
        center: r.center,
        selected: r.selected,
    }
}

/// Atoms after the user toggles the atom with id `id`. If it was selected it
/// is deselected and nothing else changes; if it was not, it becomes the one
/// selected atom. An unknown id changes nothing.
pub open spec fn toggled(atoms: Seq<AtomState>, id: u64) -> Seq<AtomState> {
    let present = exists|i: int| 0 <= i < atoms.len() && atoms[i].id == id;
    let was = exists|i: int| 0 <= i < atoms.len() && atoms[i].id == id && atoms[i].selected;
    if !present {
        atoms
    } else if was {
        atoms.map_values(|a: AtomState| if a.id == id { with_selected(a, false) } else { a })
    } else {
        atoms.map_values(|a: AtomState| with_selected(a, a.id == id))
    }
}

proof fn lemma_survivors_ordered(atoms: Seq<AtomState>, active: Seq<bool>, bound: int)
    requires
        ids_ordered(atoms, bound),
        atoms.len() == active.len(),
    ensures
        ids_ordered(survivors(atoms, active), bound),
    decreases atoms.len(),
{
    if atoms.len() > 0 {
        let last = atoms.last();
        lemma_survivors_ordered(atoms.drop_last(), active.drop_last(), last.id as int);
    }
}

proof fn lemma_survivors_classified(atoms: Seq<AtomState>, active: Seq<bool>)
    requires
        forall|i: int| 0 <= i < atoms.len() ==> classified(#[trigger] atoms[i]),
    ensures
        forall|i: int| 0 <= i < survivors(atoms, active).len() ==> classified(#[trigger] survivors(atoms, active)[i]),
    decreases atoms.len(),
{
    if atoms.len() > 0 && active.len() > 0 {
        let rest = atoms.drop_last();
        assert forall|i: int| 0 <= i < rest.len() implies classified(#[trigger] rest[i]) by {
            assert(rest[i] == atoms[i]);
        }
        assert(classified(atoms[atoms.len() - 1]));
        lemma_survivors_classified(rest, active.drop_last());
        let rs = survivors(rest, active.drop_last());
        let all = survivors(atoms, active);
        assert forall|i: int| 0 <= i < all.len() implies classified(#[trigger] all[i]) by {
            if i < rs.len() {
                assert(all[i] == rs[i]);
            }
        }
    }
}

/// The atoms of a simulation, each under a stable id.
pub struct AtomStore {
    records: Vec<AtomRecord>,
    next_id: u64,
}

impl View for AtomStore {
    type V = Seq<AtomState>;

    closed spec fn view(&self) -> Seq<AtomState> {
        views(self.records@)
    }
}

impl AtomStore {
    /// The id that the next new atom will get.
    pub closed spec fn next_free(&self) -> int {
        self.next_id as int
    }

    /// Ids are unique (increasing in storage order) and below the next free id.
    pub open spec fn wf(&self) -> bool {
        &&& ids_ordered(self@, self.next_free())
        &&& forall|i: int| 0 <= i < self@.len() ==> classified(#[trigger] self@[i])
    }

    /// An empty store.
    pub fn new() -> (r: AtomStore)
        ensures
            r.wf(),
            r@ == Seq::<AtomState>::empty(),
            r.next_free() == 0,
    {
        let r = AtomStore { records: Vec::new(), next_id: 0 };
        assert(r@ =~= Seq::<AtomState>::empty());
        r
    }

    /// Number of atoms.
    pub fn len(&self) -> (r: usize)
        ensures
            r == self@.len(),
    {
        self.records.len()
    }

    /// The atom at position `i`.
    pub fn get(&self, i: usize) -> (r: &AtomRecord)
        requires
            i < self@.len(),
        ensures
            r@ == self@[i as int],
    {
        &self.records[i]
    }

    /// The id that the next new atom will get.
    pub fn next_id(&self) -> (r: u64)
        ensures
            r == self.next_free(),
    {
        self.next_id
    }

    /// Position of the atom with id `id`, if there is one.
    pub fn find(&self, id: u64) -> (r: Option<usize>)
        ensures
            r matches Some(i) ==> i < self@.len() && self@[i as int].id == id,
            r is None ==> forall|i: int| 0 <= i < self@.len() ==> self@[i].id != id,
    {
        let mut i: usize = 0;
        while i < self.records.len()
            invariant
                i <= self.records.len(),
                forall|j: int| 0 <= j < i ==> self@[j].id != id,
            decreases self.records.len() - i,
        {
            if self.records[i].id == id {
                return Some(i);
            }
            i = i + 1;
        }
        None
    }

    /// The first selected atom, if any.
    pub fn selected_atom(&self) -> (r: Option<&AtomRecord>)
        ensures
            r matches Some(a) ==> exists|i: int|
                0 <= i < self@.len() && self@[i] == a@ && a.selected && forall|j: int|
                    0 <= j < i ==> !self@[j].selected,
            r is None ==> forall|i: int| 0 <= i < self@.len() ==> !self@[i].selected,
    {
        let mut i: usize = 0;
        while i < self.records.len()
            invariant
                i <= self.records.len(),
                forall|j: int| 0 <= j < i ==> !self@[j].selected,
            decreases self.records.len() - i,
        {
            if self.records[i].selected {
                assert(self@[i as int] == self.records@[i as int]@);
                return Some(&self.records[i]);
            }
            i = i + 1;
        }
        None
    }

    /// Toggles the selection of the atom with id `id`. Selecting an atom
    /// deselects every other one. Returns whether the id was found.
    pub fn toggle_selected(&mut self, id: u64) -> (r: bool)
        requires
            old(self).wf(),
        ensures
            final(self).wf(),
            final(self).next_free() == old(self).next_free(),
            r == exists|i: int| 0 <= i < old(self)@.len() && old(self)@[i].id == id,
            final(self)@ == toggled(old(self)@, id),
    {
        let ghost before = self@;
        match self.find(id) {
            None => {
                assert(!exists|i: int| 0 <= i < before.len() && before[i].id == id);
                false
            },
            Some(k) => {
                if self.records[k].selected {
                    self.records[k].selected = false;
                    proof {
                        assert forall|i: int| 0 <= i < before.len() && before[i].id == id implies i == k by {
                            if i < k {
                                assert(before[i].id < before[k as int].id);
                            } else if i > k {
                                assert(before[k as int].id < before[i].id);
                            }
                        }
                        assert(self@ =~= toggled(before, id));
                    }
                } else {
                    proof {
                        assert forall|i: int| 0 <= i < before.len() && before[i].id == id implies !before[i].selected by {
                            if i < k {
                                assert(before[i].id < before[k as int].id);
                            } else if i > k {
                                assert(before[k as int].id < before[i].id);
                            }
                        }
                    }
                    let mut j: usize = 0;
                    while j < self.records.len()
                        invariant
                            j <= self.records.len() == before.len(),
                            forall|m: int| 0 <= m < j ==> self@[m] == with_selected(before[m], before[m].id == id),
                            forall|m: int| j <= m < before.len() ==> self@[m] == before[m],
                            self.next_id == old(self).next_id,
                        decreases self.records.len() - j,
                    {
                        let ghost mid = self@;
                        let v = self.records[j].id == id;
                        self.records[j].selected = v;
                        proof {
                            assert(mid[j as int] == before[j as int]);
                            assert(self@ =~= mid.update(j as int, with_selected(before[j as int], v)));
                        }
                        j = j + 1;
                    }
                    assert(self@ =~= toggled(before, id));
                }
                true
            },
        }
    }

    /// Whether some selected atom shares a particle with `ids`.
    fn touches_selected(&self, ids: &Vec<u64>) -> (r: bool)
        ensures
            r == touches_selected(self@, ids@),
    {
        let mut j: usize = 0;
        while j < self.records.len()
            invariant
                j <= self.records.len(),
                forall|m: int| 0 <= m < j ==> !(self@[m].selected && overlaps(self@[m].constituents, ids@)),
            decreases self.records.len() - j,
        {
            if self.records[j].selected && share(&self.records[j].atom.constituent_particles, ids) {
                assert(self@[j as int] == self.records@[j as int]@);
                return true;
            }
            j = j + 1;
        }
        false
    }

    /// Position of the first atom that shares a particle with `ids`, or the
    /// number of atoms.
    fn claimant(&self, ids: &Vec<u64>) -> (r: usize)
        ensures
            r == claimant_from(self@, ids@, 0),
    {
        let mut j: usize = 0;
        while j < self.records.len()
            invariant
                j <= self.records.len(),
                claimant_from(self@, ids@, 0) == claimant_from(self@, ids@, j as int),
            decreases self.records.len() - j,
        {
            if share(&self.records[j].atom.constituent_particles, ids) {
                return j;
            }
            j = j + 1;
        }
        j
    }

    /// Reconciles this frame's candidate nuclei with the tracked atoms, in
    /// order. A nucleus whose proton count names no element is skipped. A
    /// nucleus that shares a particle with a tracked atom rebuilds the first
    /// such atom under the same id; any other makes a new atom under the next
    /// id. An atom becomes selected when the nucleus shares a particle with a
    /// selected atom. Tracked atoms that no nucleus rebuilt are dropped; the
    /// new atoms follow the rebuilt ones.
    pub fn reconcile(&mut self, nuclei: &Vec<Vec<Body>>)
        requires
            old(self).wf(),
            old(self).next_free() + nuclei.len() <= u64::MAX,
            forall|k: int| 0 <= k < nuclei.len() ==> #[trigger] nuclei@[k].len() <= MAX_BODIES,
            forall|k: int| 0 <= k < nuclei.len() ==> all_in_bounds(#[trigger] nuclei@[k]@),
        ensures
            final(self).wf(),
            final(self)@ == reconciled(old(self)@, old(self).next_free(), deep(nuclei@)),
            final(self).next_free() == reconciled_next_id(old(self)@, old(self).next_free(), deep(nuclei@)),
    {
        let ghost atoms0 = self@;
        let ghost next0 = self.next_id as int;
        let ghost cs = deep(nuclei@);
        let n = self.records.len();
        let mut active: Vec<bool> = Vec::new();
        let mut j: usize = 0;
        while j < n
            invariant
                j <= n == self.records.len(),
                active@ =~= Seq::new(j as nat, |m: int| false),
            decreases n - j,
        {
            active.push(false);
            j = j + 1;
        }
        let mut created: Vec<AtomRecord> = Vec::new();
        assert(active@ =~= start(atoms0, next0).active);
        assert(views(created@) =~= start(atoms0, next0).created);
        assert(cs.take(0) =~= Seq::<Seq<Body>>::empty());
        let mut i: usize = 0;
        while i < nuclei.len()
            invariant
                i <= nuclei.len(),
                cs == deep(nuclei@),
                forall|k: int| 0 <= k < nuclei.len() ==> #[trigger] nuclei@[k].len() <= MAX_BODIES,
                forall|k: int| 0 <= k < nuclei.len() ==> all_in_bounds(#[trigger] nuclei@[k]@),
                self.records.len() == n == active.len() == atoms0.len(),
                forall|m: int| 0 <= m < n ==> #[trigger] self@[m].id == atoms0[m].id,
                forall|m: int| 0 <= m < n ==> classified(#[trigger] self@[m]),
                forall|m: int| 0 <= m < created.len() ==> classified(#[trigger] views(created@)[m]),
                ids_ordered(atoms0, next0),
                forall|m: int| 0 <= m < created.len() ==> #[trigger] views(created@)[m].id == next0 + m,
                self.next_id == next0 + created.len(),
                created.len() <= i,
                next0 + nuclei.len() <= u64::MAX,
                run(start(atoms0, next0), cs.take(i as int)).atoms == self@,
                run(start(atoms0, next0), cs.take(i as int)).active == active@,
                run(start(atoms0, next0), cs.take(i as int)).created == views(created@),
                run(start(atoms0, next0), cs.take(i as int)).next_id == self.next_id,
            decreases nuclei.len() - i,
        {
            let c = &nuclei[i];
            proof {
                assert(cs.take(i as int + 1).drop_last() == cs.take(i as int));
                assert(cs.take(i as int + 1).last() == c@);
            }
            let pc = count_kind(c, Kind::Proton);
            if 1 <= pc && pc <= crate::element::MAX_PROTON_COUNT {
                let ids = ids_of(c);
                let sel = self.touches_selected(&ids);
                let k = self.claimant(&ids);
                let nc = count_kind(c, Kind::Neutron);
                let center = center_of(c);
                if let Ok(atom) = Atom::new(pc, nc, 0, ids) {
                    if k < n {
                        let id = self.records[k].id;
                        let ghost mid = self@;
                        let ghost mid_active = active@;
                        self.records[k] = AtomRecord { id, atom, center, selected: sel };
                        active[k] = true;
                        proof {
                            assert(self@ =~= mid.update(k as int, atom_of(mid[k as int].id, c@, sel)));
                            assert(active@ =~= mid_active.update(k as int, true));
                        }
                    } else {
                        let ghost mid = views(created@);
                        created.push(AtomRecord { id: self.next_id, atom, center, selected: sel });
                        self.next_id = self.next_id + 1;
                        proof {
                            assert(views(created@) =~= mid.push(atom_of((next0 + mid.len()) as u64, c@, sel)));
                        }
                    }
                }
            }
            i = i + 1;
        }
        proof {
            assert(cs.take(nuclei.len() as int) == cs);
        }
        let ghost updated = self@;
        let ghost made = views(created@);
        let mut kept: Vec<AtomRecord> = Vec::new();
        let mut j: usize = 0;
        while j < n
            invariant
                j <= n == self.records.len() == active.len(),
                updated == self@,
                views(kept@) == survivors(self@.take(j as int), active@.take(j as int)),
            decreases n - j,
        {
            proof {
                assert(self@.take(j as int + 1).drop_last() == self@.take(j as int));
                assert(active@.take(j as int + 1).drop_last() == active@.take(j as int));
            }
            if active[j] {
                let ghost prev = views(kept@);
                kept.push(copy_record(&self.records[j]));
                proof {
                    assert(views(kept@) =~= prev.push(self@[j as int]));
                }
            }
            j = j + 1;
        }
        proof {
            assert(self@.take(n as int) == self@);
            assert(active@.take(n as int) == active@);
            assert(ids_ordered(updated, next0));
            lemma_survivors_ordered(updated, active@, next0);
            lemma_survivors_classified(updated, active@);
        }
        let ghost kept_view = views(kept@);
        kept.append(&mut created);
        self.records = kept;
        proof {
            assert(self@ =~= kept_view + made);
            assert forall|a: int, b: int| 0 <= a < b < self@.len() implies self@[a].id < self@[b].id by {
                if b < kept_view.len() {
                } else if a < kept_view.len() {
                    assert(self@[a] == kept_view[a]);
                    assert(self@[b] == made[b - kept_view.len()]);
                } else {
                    assert(self@[a] == made[a - kept_view.len()]);
                    assert(self@[b] == made[b - kept_view.len()]);
                }
            }
            assert forall|a: int| 0 <= a < self@.len() implies classified(#[trigger] self@[a]) by {
                if a >= kept_view.len() {
                    assert(self@[a] == made[a - kept_view.len()]);
                } else {
                    assert(self@[a] == kept_view[a]);
                }
            }
            assert forall|a: int| 0 <= a < self@.len() implies self@[a].id < self.next_id by {
                if a >= kept_view.len() {
                    assert(self@[a] == made[a - kept_view.len()]);
                }
            }
        }
    }

    /// Finds this frame's nuclei among `bodies` and reconciles the tracked
    /// atoms with them.
    pub fn detect_atoms(&mut self, bodies: &Vec<Body>)
        requires
            old(self).wf(),
            bodies.len() <= MAX_BODIES,
            all_in_bounds(bodies@),
            old(self).next_free() + bodies.len() <= u64::MAX,
        ensures
            final(self).wf(),
            final(self)@ == reconciled(old(self)@, old(self).next_free(), nuclei(bodies@)),
            final(self).next_free() == reconciled_next_id(old(self)@, old(self).next_free(), nuclei(bodies@)),
    {
        let found = find_nuclei(bodies);
        self.reconcile(&found);
    }
}

} // verus!
