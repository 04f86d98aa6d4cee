use universe::atom::{Atom, AtomError};
use universe::tracker::AtomStore;
use universe::cluster::{find_nuclei, Body, Position};
use universe::element::Element;
use universe::particle::Kind;

fn body(id: u64, kind: Kind, x: i64, y: i64, z: i64) -> Body {
    Body { id, kind, position: Position { x, y, z } }
}

fn ids(c: &[Body]) -> Vec<u64> {
    c.iter().map(|b| b.id).collect()
}

#[test]
fn proton_and_neutron_make_hydrogen() {
    let bodies = vec![
        body(1, Kind::Proton, 0, 0, 0),
        body(2, Kind::Neutron, 3_000_000, 0, 0),
    ];
    let mut store = AtomStore::new();
    store.detect_atoms(&bodies);
    assert_eq!(store.len(), 1);
    let rec = store.get(0);
    assert_eq!(rec.atom.element, Element::Hydrogen);
    assert_eq!(rec.atom.proton_count, 1);
    assert_eq!(rec.atom.neutron_count, 1);
    assert_eq!(rec.atom.electron_count, 0);
    assert_eq!(rec.atom.constituent_particles, vec![1, 2]);
    assert_eq!(rec.center, Position { x: 1_500_000, y: 0, z: 0 });
    assert!(!rec.selected);
}

#[test]
fn lone_nucleon_is_no_nucleus() {
    let bodies = vec![body(1, Kind::Proton, 0, 0, 0), body(2, Kind::Neutron, 50_000_000, 0, 0)];
    assert!(find_nuclei(&bodies).is_empty());
    let mut store = AtomStore::new();
    store.detect_atoms(&bodies);
    assert_eq!(store.len(), 0);
}

#[test]
fn formation_distance_is_strict() {
    let apart = vec![body(1, Kind::Proton, 0, 0, 0), body(2, Kind::Proton, 12_000_000, 0, 0)];
    assert!(find_nuclei(&apart).is_empty());
    let close = vec![body(1, Kind::Proton, 0, 0, 0), body(2, Kind::Proton, 11_999_999, 0, 0)];
    assert_eq!(find_nuclei(&close).len(), 1);
}

#[test]
fn electrons_and_photons_are_not_clustered() {
    let bodies = vec![
        body(1, Kind::Electron, 0, 0, 0),
        body(2, Kind::Photon, 0, 0, 0),
        body(3, Kind::Proton, 0, 0, 0),
    ];
    assert!(find_nuclei(&bodies).is_empty());
}

#[test]
fn nucleon_joins_first_near_cluster() {
    // Clusters open at x = 0 and x = 20; a nucleon at x = 11 is near both
    // centroids but closer to the second, and still joins the first.
    let bodies = vec![
        body(1, Kind::Proton, 0, 0, 0),
        body(2, Kind::Proton, 20_000_000, 0, 0),
        body(3, Kind::Neutron, 11_000_000, 0, 0),
        body(4, Kind::Neutron, 20_000_000, 1_000_000, 0),
    ];
    let nuclei = find_nuclei(&bodies);
    assert_eq!(nuclei.len(), 2);
    assert_eq!(ids(&nuclei[0]), vec![1, 3]);
    assert_eq!(ids(&nuclei[1]), vec![2, 4]);
}

#[test]
fn centroid_moves_as_members_join() {
    // The third nucleon is 13 units from the first but within 12 of the
    // centroid of the first two.
    let bodies = vec![
        body(1, Kind::Proton, 0, 0, 0),
        body(2, Kind::Proton, 8_000_000, 0, 0),
        body(3, Kind::Proton, 13_000_000, 0, 0),
    ];
    let nuclei = find_nuclei(&bodies);
    assert_eq!(nuclei.len(), 1);
    assert_eq!(ids(&nuclei[0]), vec![1, 2, 3]);
}

#[test]
fn clustering_twice_gives_same_nuclei() {
    let bodies = vec![
        body(1, Kind::Proton, 0, 0, 0),
        body(2, Kind::Neutron, 5_000_000, -2_000_000, 1_000_000),
        body(3, Kind::Proton, 100_000_000, 0, 0),
        body(4, Kind::Neutron, 104_000_000, 3_000_000, 0),
        body(5, Kind::Electron, 1_000_000, 0, 0),
        body(6, Kind::Proton, -60_000_000, 0, 0),
    ];
    let first = find_nuclei(&bodies);
    let second = find_nuclei(&bodies);
    assert_eq!(first, second);
    assert_eq!(first.len(), 2);
    assert_eq!(ids(&first[0]), vec![1, 2]);
    assert_eq!(ids(&first[1]), vec![3, 4]);
}

#[test]
fn atom_keeps_id_when_a_nucleon_joins() {
    let mut bodies = vec![
        body(1, Kind::Proton, 0, 0, 0),
        body(2, Kind::Neutron, 1_000_000, 0, 0),
        body(3, Kind::Proton, 0, 1_000_000, 0),
    ];
    let mut store = AtomStore::new();
    store.detect_atoms(&bodies);
    assert_eq!(store.len(), 1);
    let id = store.get(0).id;
    assert_eq!(store.get(0).atom.element, Element::Helium);
    bodies.push(body(4, Kind::Neutron, 0, 0, 1_000_000));
    store.detect_atoms(&bodies);
    assert_eq!(store.len(), 1);
    assert_eq!(store.get(0).id, id);
    assert_eq!(store.get(0).atom.count(), 4);
    assert_eq!(store.get(0).atom.constituent_particles, vec![1, 2, 3, 4]);
    assert_eq!(store.next_id(), 1);
}

#[test]
fn atom_that_falls_apart_is_removed() {
    let mut store = AtomStore::new();
    store.detect_atoms(&vec![body(1, Kind::Proton, 0, 0, 0), body(2, Kind::Neutron, 1_000_000, 0, 0)]);
    assert_eq!(store.len(), 1);
    store.detect_atoms(&vec![body(1, Kind::Proton, 0, 0, 0), body(2, Kind::Neutron, 90_000_000, 0, 0)]);
    assert_eq!(store.len(), 0);
}

#[test]
fn new_cluster_gets_fresh_id() {
    let mut store = AtomStore::new();
    store.detect_atoms(&vec![body(1, Kind::Proton, 0, 0, 0), body(2, Kind::Neutron, 1_000_000, 0, 0)]);
    store.detect_atoms(&vec![
        body(1, Kind::Proton, 0, 0, 0),
        body(2, Kind::Neutron, 1_000_000, 0, 0),
        body(7, Kind::Proton, 80_000_000, 0, 0),
        body(8, Kind::Proton, 81_000_000, 0, 0),
    ]);
    assert_eq!(store.len(), 2);
    assert_eq!(store.get(0).id, 0);
    assert_eq!(store.get(1).id, 1);
    assert_eq!(store.get(1).atom.element, Element::Helium);
    assert_eq!(store.get(1).atom.neutron_count, 0);
    assert_eq!(store.next_id(), 2);
}

#[test]
fn neutrons_alone_make_no_atom() {
    let mut store = AtomStore::new();
    store.detect_atoms(&vec![body(1, Kind::Neutron, 0, 0, 0), body(2, Kind::Neutron, 1_000_000, 0, 0)]);
    assert_eq!(find_nuclei(&vec![body(1, Kind::Neutron, 0, 0, 0), body(2, Kind::Neutron, 1_000_000, 0, 0)]).len(), 1);
    assert_eq!(store.len(), 0);
    assert_eq!(store.next_id(), 0);
}

#[test]
fn too_many_protons_make_no_atom() {
    let heavy: Vec<Body> = (0..119u64).map(|i| body(i, Kind::Proton, 0, 0, i as i64)).collect();
    assert_eq!(find_nuclei(&heavy).len(), 1);
    let mut store = AtomStore::new();
    store.detect_atoms(&heavy);
    assert_eq!(store.len(), 0);
    let heaviest: Vec<Body> = (0..118u64).map(|i| body(i, Kind::Proton, 0, 0, i as i64)).collect();
    store.detect_atoms(&heaviest);
    assert_eq!(store.len(), 1);
    assert_eq!(store.get(0).atom.element, Element::Oganesson);
}

#[test]
fn selection_stays_with_the_claiming_atom() {
    let mut store = AtomStore::new();
    store.detect_atoms(&vec![body(1, Kind::Proton, 0, 0, 0), body(2, Kind::Neutron, 1_000_000, 0, 0)]);
    assert!(store.toggle_selected(0));
    // The nucleons drift apart and each joins a different new pair. The
    // first pair rebuilds the selected atom, which then holds only its own
    // particles, so the second pair becomes a new, unselected atom.
    store.detect_atoms(&vec![
        body(1, Kind::Proton, 0, 0, 0),
        body(3, Kind::Proton, 1_000_000, 0, 0),
        body(2, Kind::Neutron, 90_000_000, 0, 0),
        body(4, Kind::Proton, 91_000_000, 0, 0),
    ]);
    assert_eq!(store.len(), 2);
    assert_eq!(store.get(0).id, 0);
    assert!(store.get(0).selected);
    assert_eq!(store.get(0).atom.constituent_particles, vec![1, 3]);
    assert_eq!(store.get(1).id, 1);
    assert!(!store.get(1).selected);
    assert_eq!(store.get(1).atom.constituent_particles, vec![2, 4]);
}

#[test]
fn selecting_an_atom_deselects_the_others() {
    let mut store = AtomStore::new();
    store.detect_atoms(&vec![
        body(1, Kind::Proton, 0, 0, 0),
        body(2, Kind::Neutron, 1_000_000, 0, 0),
        body(3, Kind::Proton, 50_000_000, 0, 0),
        body(4, Kind::Neutron, 51_000_000, 0, 0),
        body(5, Kind::Proton, 100_000_000, 0, 0),
        body(6, Kind::Proton, 101_000_000, 0, 0),
    ]);
    assert_eq!(store.len(), 3);
    assert!(store.toggle_selected(0));
    assert!(store.toggle_selected(2));
    let selected: Vec<u64> = (0..store.len()).filter(|&i| store.get(i).selected).map(|i| store.get(i).id).collect();
    assert_eq!(selected, vec![2]);
    assert_eq!(store.selected_atom().map(|r| r.id), Some(2));
    assert!(store.toggle_selected(1));
    let selected: Vec<u64> = (0..store.len()).filter(|&i| store.get(i).selected).map(|i| store.get(i).id).collect();
    assert_eq!(selected, vec![1]);
}

#[test]
fn toggling_twice_clears_selection() {
    let mut store = AtomStore::new();
    store.detect_atoms(&vec![body(1, Kind::Proton, 0, 0, 0), body(2, Kind::Neutron, 1_000_000, 0, 0)]);
    assert!(store.toggle_selected(0));
    assert!(store.toggle_selected(0));
    assert!(store.selected_atom().is_none());
}

#[test]
fn toggling_unknown_id_changes_nothing() {
    let mut store = AtomStore::new();
    store.detect_atoms(&vec![body(1, Kind::Proton, 0, 0, 0), body(2, Kind::Neutron, 1_000_000, 0, 0)]);
    assert!(!store.toggle_selected(42));
    assert!(store.selected_atom().is_none());
    assert_eq!(store.find(0), Some(0));
    assert_eq!(store.find(42), None);
}

#[test]
fn centroid_rounds_toward_zero() {
    let mut store = AtomStore::new();
    store.detect_atoms(&vec![
        body(1, Kind::Proton, -1, -2, 0),
        body(2, Kind::Proton, -2, 1, 5),
        body(3, Kind::Neutron, 0, 0, 0),
    ]);
    assert_eq!(store.get(0).center, Position { x: -1, y: 0, z: 1 });
}

#[test]
fn atom_new_checks_proton_count() {
    assert_eq!(Atom::new(0, 2, 0, vec![1, 2]).unwrap_err(), AtomError::InvalidProtonCount(0));
    assert_eq!(Atom::new(119, 0, 0, vec![]).unwrap_err(), AtomError::InvalidProtonCount(119));
    let a = Atom::new(8, 8, 0, vec![1, 2]).unwrap();
    assert_eq!(a.element, Element::Oxygen);
    assert_eq!(a.count(), 16);
    assert_eq!(a.constituent_particles, vec![1, 2]);
}

#[test]
fn clustering_limits_on_positions() {
    assert!(Position { x: 1_099_511_627_776, y: -1_099_511_627_776, z: 0 }.within_limits());
    assert!(!Position { x: 1_099_511_627_777, y: 0, z: 0 }.within_limits());
    assert!(!Position { x: 0, y: 0, z: i64::MIN }.within_limits());
}

#[test]
fn atoms_never_share_particles() {
    // A deterministic scatter of nucleons over a few frames of drift.
    let mut seed: u64 = 12345;
    let mut next = || {
        seed = seed.wrapping_mul(6364136223846793005).wrapping_add(1442695040888963407);
        ((seed >> 33) % 60_000_000) as i64 - 30_000_000
    };
    let mut bodies: Vec<Body> = (0..80u64)
        .map(|i| {
            let kind = if i % 3 == 0 { Kind::Neutron } else { Kind::Proton };
            body(i, kind, next(), next(), next())
        })
        .collect();
    let mut store = AtomStore::new();
    for _ in 0..5 {
        store.detect_atoms(&bodies);
        let mut seen = std::collections::HashSet::new();
        for i in 0..store.len() {
            let rec = store.get(i);
            assert!(rec.atom.constituent_particles.len() >= 2);
            for p in &rec.atom.constituent_particles {
                assert!(seen.insert(*p), "particle {} claimed twice", p);
            }
        }
        for b in bodies.iter_mut() {
            b.position.x += next() / 10;
            b.position.y += next() / 10;
        }
    }
    assert!(store.len() > 0);
}

#[test]
fn empty_frame_clears_all_atoms() {
    let mut store = AtomStore::new();
    store.detect_atoms(&vec![body(1, Kind::Proton, 0, 0, 0), body(2, Kind::Neutron, 1_000_000, 0, 0)]);
    assert_eq!(store.len(), 1);
    store.detect_atoms(&Vec::new());
    assert_eq!(store.len(), 0);
    assert_eq!(store.next_id(), 1);
}
