use universe::cluster::Position;
use universe::force::{accumulate_forces, acceleration_for, apply_forces, pair_force, ForceAccumulator, PairForce, FORCE_LIMIT};
use universe::kinematics::{apply_acceleration, apply_velocity, Acceleration, Vector, Velocity, SPEED_OF_LIGHT};
use universe::particle::{Charge, Particle, ELECTRON_MASS, PROTON_MASS};

fn v(x: i64, y: i64, z: i64) -> Vector {
    Vector { x, y, z }
}

fn norm_sq(w: Vector) -> i128 {
    let (x, y, z) = (w.x as i128, w.y as i128, w.z as i128);
    x * x + y * y + z * z
}

#[test]
fn damping_without_acceleration() {
    let mut vel = Velocity::new(v(1_000_000, 0, 0));
    vel.apply_acceleration(&Acceleration::default(), 16_000);
    assert_eq!(vel.value, v(950_000, 0, 0));
}

#[test]
fn damping_slows_every_step_until_rest() {
    let mut vel = Velocity::new(v(300, -200, 7));
    let still = Acceleration::new(Vector::zero());
    let mut last = norm_sq(vel.value);
    let mut steps = 0;
    while last > 0 {
        vel.apply_acceleration(&still, 16_000);
        let now = norm_sq(vel.value);
        assert!(now < last);
        last = now;
        steps += 1;
    }
    assert!(steps > 10);
    vel.apply_acceleration(&still, 16_000);
    assert_eq!(vel.value, Vector::zero());
}

#[test]
fn integration_step_exact_values() {
    let mut vel = Velocity::new(v(100, -100, 7));
    vel.apply_acceleration(&Acceleration::new(v(1_000_000, 0, -2_000_000)), 500_000);
    assert_eq!(vel.value, v(500_095, -95, -999_994));
}

#[test]
fn speed_cap_on_one_axis() {
    let mut vel = Velocity::default();
    vel.apply_acceleration(&Acceleration::new(v(4_000_000_000_000_000_000, 0, 0)), 1_000_000);
    assert_eq!(vel.value, v(SPEED_OF_LIGHT, 0, 0));
}

#[test]
fn speed_cap_keeps_direction() {
    let mut vel = Velocity::default();
    vel.apply_acceleration(&Acceleration::new(v(3_000_000_000_000_000, 4_000_000_000_000_000, 0)), 1_000_000);
    assert_eq!(vel.value, v(179_875_474_800_000, 239_833_966_400_000, 0));
    assert!(norm_sq(vel.value) <= (SPEED_OF_LIGHT as i128) * (SPEED_OF_LIGHT as i128));
}

#[test]
fn speed_cap_holds_for_huge_accelerations() {
    let pushes = [
        v(4_611_686_018_427_387_904, -4_611_686_018_427_387_904, 4_611_686_018_427_387_904),
        v(-1_000_000_000_000_000_000, 7, 123_456_789_012_345),
        v(0, 0, -4_000_000_000_000_000_000),
    ];
    for a in pushes {
        let mut vel = Velocity::new(v(SPEED_OF_LIGHT, -SPEED_OF_LIGHT, 0));
        vel.apply_acceleration(&Acceleration::new(a), 1_000_000);
        assert!(norm_sq(vel.value) <= (SPEED_OF_LIGHT as i128) * (SPEED_OF_LIGHT as i128));
    }
}

#[test]
fn position_follows_velocity() {
    let mut p = Position { x: 0, y: 10, z: -4 };
    apply_velocity(&mut p, &Velocity::new(v(2_000_000, -1_000_000, 3)), 500_000);
    assert_eq!(p, Position { x: 1_000_000, y: -499_990, z: -3 });
}

fn pair(a: usize, b: usize, g: Vector, e: Vector, s: Vector) -> PairForce {
    PairForce { a, b, gravity: g, electromagnetic: e, strong: s }
}

#[test]
fn pair_forces_are_opposite() {
    let pairs = vec![pair(0, 1, v(1_000, 0, 0), v(0, -20, 0), v(3, 3, 3))];
    let acc = accumulate_forces(2, &pairs);
    assert_eq!(acc[0], ForceAccumulator { gravity: v(1_000, 0, 0), electromagnetic: v(0, -20, 0), strong: v(3, 3, 3) });
    assert_eq!(acc[1], ForceAccumulator { gravity: v(-1_000, 0, 0), electromagnetic: v(0, 20, 0), strong: v(-3, -3, -3) });
}

#[test]
fn forces_sum_to_zero_over_all_particles() {
    let pairs = vec![
        pair(0, 1, v(5, -7, 11), v(1, 2, 3), v(-4, 0, 9)),
        pair(0, 2, v(-13, 17, 0), v(6, 6, -6), v(2, 2, 2)),
        pair(1, 2, v(100, 200, 300), v(-50, 0, 50), v(8, -8, 8)),
        pair(3, 1, v(1, 1, 1), v(0, 0, 0), v(-1, -1, -1)),
    ];
    let acc = accumulate_forces(4, &pairs);
    let mut g = v(0, 0, 0);
    let mut e = v(0, 0, 0);
    let mut s = v(0, 0, 0);
    for f in &acc {
        g = v(g.x + f.gravity.x, g.y + f.gravity.y, g.z + f.gravity.z);
        e = v(e.x + f.electromagnetic.x, e.y + f.electromagnetic.y, e.z + f.electromagnetic.z);
        s = v(s.x + f.strong.x, s.y + f.strong.y, s.z + f.strong.z);
    }
    assert_eq!(g, Vector::zero());
    assert_eq!(e, Vector::zero());
    assert_eq!(s, Vector::zero());
    assert_eq!(acc[3].gravity, v(1, 1, 1));
}

#[test]
fn acceleration_sums_the_three_forces() {
    let f = ForceAccumulator { gravity: v(1, 0, 0), electromagnetic: v(2, 0, 0), strong: v(3, 0, -4) };
    assert_eq!(acceleration_for(&f, PROTON_MASS, 1_000_000), v(6, 0, -4));
}

#[test]
fn acceleration_scales_with_frame_and_mass() {
    let f = ForceAccumulator { gravity: v(545, 0, 0), electromagnetic: Vector::zero(), strong: Vector::zero() };
    assert_eq!(acceleration_for(&f, ELECTRON_MASS, 1_000_000), v(1_000_000, 0, 0));
    assert_eq!(acceleration_for(&f, PROTON_MASS, 500_000), v(272, 0, 0));
}

#[test]
fn change_per_frame_is_capped() {
    let f = ForceAccumulator { gravity: v(1_000_000_000, 0, 0), electromagnetic: Vector::zero(), strong: Vector::zero() };
    assert_eq!(acceleration_for(&f, PROTON_MASS, 1_000_000), v(10_000_000, 0, 0));
    let g = ForceAccumulator { gravity: v(0, 30_000_000, 40_000_000), electromagnetic: Vector::zero(), strong: Vector::zero() };
    assert_eq!(acceleration_for(&g, PROTON_MASS, 1_000_000), v(0, 6_000_000, 8_000_000));
}

#[test]
fn massless_particle_gets_no_acceleration() {
    let f = ForceAccumulator { gravity: v(1_000, 2_000, 3_000), electromagnetic: Vector::zero(), strong: Vector::zero() };
    assert_eq!(acceleration_for(&f, Particle::photon().mass, 1_000_000), Vector::zero());
}

#[test]
fn whole_frame_of_forces() {
    let masses = vec![Particle::proton().mass, Particle::proton().mass];
    let pairs = vec![pair(0, 1, v(1_000, 0, 0), Vector::zero(), Vector::zero())];
    let accs = apply_forces(&masses, &pairs, 1_000_000);
    assert_eq!(accs, vec![v(1_000, 0, 0), v(-1_000, 0, 0)]);
}

#[test]
fn every_velocity_advances_by_its_own_acceleration() {
    let mut velocities = vec![Velocity::new(v(100, 0, 0)), Velocity::new(v(0, -200, 0))];
    let accelerations = vec![Acceleration::new(v(0, 0, 1_000_000)), Acceleration::default()];
    apply_acceleration(&mut velocities, &accelerations, 1_000);
    assert_eq!(velocities[0].value, v(95, 0, 1_000));
    assert_eq!(velocities[1].value, v(0, -190, 0));
}

#[test]
fn two_protons_accelerate_toward_each_other() {
    // Two uncharged protons two units apart, one frame of 16 ms.
    let neutral = Particle { charge: Charge::Neutral, ..Particle::proton() };
    let pa = Position { x: 0, y: 0, z: 0 };
    let pb = Position { x: 2_000_000, y: 0, z: 0 };
    let (gravity, electromagnetic) = pair_force(pa, pb, &neutral, &neutral);
    // G m m / d^2 = 50000 * 1 * 1 / 4 = 12500 units, toward the other proton.
    assert_eq!(gravity, v(12_500_000_000, 0, 0));
    assert_eq!(electromagnetic, Vector::zero());
    let masses = vec![neutral.mass, neutral.mass];
    let pairs = vec![pair(0, 1, gravity, electromagnetic, Vector::zero())];
    let frame = 16_000;
    let accs = apply_forces(&masses, &pairs, frame);
    // 12500 units over 0.016 s is a change of 200 units, capped at 10.
    assert_eq!(accs, vec![v(10_000_000, 0, 0), v(-10_000_000, 0, 0)]);
    let mut velocities = vec![Velocity::default(), Velocity::default()];
    let accelerations: Vec<Acceleration> = accs.into_iter().map(Acceleration::new).collect();
    apply_acceleration(&mut velocities, &accelerations, frame);
    assert_eq!(velocities[0].value, v(160_000, 0, 0));
    assert_eq!(velocities[1].value, v(-160_000, 0, 0));
    let mut positions = vec![pa, pb];
    for i in 0..2 {
        apply_velocity(&mut positions[i], &velocities[i], frame);
    }
    assert_eq!(positions[0], Position { x: 2_560, y: 0, z: 0 });
    assert_eq!(positions[1], Position { x: 1_997_440, y: 0, z: 0 });
}

#[test]
fn like_charges_repel_and_unlike_attract() {
    let pa = Position { x: 0, y: 0, z: 0 };
    let pb = Position { x: 0, y: 2_000_000, z: 0 };
    let p = Particle::proton();
    let (_, repel) = pair_force(pa, pb, &p, &p);
    // -K q q / d^2 = -69000 / 4 units, pointing away from the other proton.
    assert_eq!(repel, v(0, -17_250_000_000, 0));
    let (_, attract) = pair_force(pa, pb, &p, &Particle::electron());
    assert_eq!(attract, v(0, 17_250_000_000, 0));
    let (_, none) = pair_force(pa, pb, &p, &Particle::neutron());
    assert_eq!(none, Vector::zero());
}

#[test]
fn gravity_weakens_with_distance() {
    let p = Particle::proton();
    let origin = Position { x: 0, y: 0, z: 0 };
    let mut last = i64::MAX;
    for d in [2_000_000i64, 3_000_000, 5_000_000, 40_000_000] {
        let (g, _) = pair_force(origin, Position { x: 0, y: 0, z: d }, &p, &p);
        assert!(g.z < last);
        last = g.z;
    }
    let (g, _) = pair_force(origin, Position { x: 0, y: 0, z: 3_000_000 }, &p, &p);
    assert_eq!(g, v(0, 0, 5_555_555_555));
}

#[test]
fn electromagnetic_force_weakens_with_distance() {
    let p = Particle::proton();
    let origin = Position { x: 0, y: 0, z: 0 };
    let mut last = i64::MAX;
    for d in [1_000_000i64, 2_000_000, 7_000_000, 100_000_000] {
        let (_, e) = pair_force(origin, Position { x: d, y: 0, z: 0 }, &p, &p);
        assert!(e.x < 0);
        assert!(e.x.abs() < last);
        last = e.x.abs();
    }
}

#[test]
fn force_on_a_diagonal_is_split_by_direction() {
    let p = Particle { charge: Charge::Neutral, ..Particle::proton() };
    let (g, _) = pair_force(Position { x: 0, y: 0, z: 0 }, Position { x: 3_000_000, y: 4_000_000, z: 0 }, &p, &p);
    // 50000 / 25 = 2000 units, split 3:4 along the offset.
    assert_eq!(g, v(1_200_000_000, 1_600_000_000, 0));
}

#[test]
fn close_pairs_saturate_and_coincident_pairs_exert_nothing() {
    let p = Particle::proton();
    let (g, e) = pair_force(Position { x: 0, y: 0, z: 0 }, Position { x: 1, y: 0, z: 0 }, &p, &p);
    assert_eq!(g, v(FORCE_LIMIT, 0, 0));
    assert_eq!(e, v(-FORCE_LIMIT, 0, 0));
    let here = Position { x: 5, y: 5, z: 5 };
    assert_eq!(pair_force(here, here, &p, &p), (Vector::zero(), Vector::zero()));
}
