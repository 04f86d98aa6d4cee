use universe::element::Rgb;
use universe::particle::{Charge, Kind, Particle, ELECTRON_MASS, NEUTRON_MASS, PROTON_MASS, UNIT};

#[test]
fn proton_preset() {
    let p = Particle::proton();
    assert_eq!(p.kind, Kind::Proton);
    assert_eq!(p.mass, PROTON_MASS);
    assert_eq!(p.radius, 1_000_000);
    assert_eq!(p.charge.charge(), UNIT);
}

#[test]
fn neutron_preset() {
    let p = Particle::neutron();
    assert_eq!(p.kind, Kind::Neutron);
    assert_eq!(p.mass, NEUTRON_MASS);
    assert_eq!(p.mass, 1_008_665);
    assert_eq!(p.charge, Charge::Neutral);
    assert_eq!(p.charge.charge(), 0);
}

#[test]
fn electron_preset() {
    let p = Particle::electron();
    assert_eq!(p.kind, Kind::Electron);
    assert_eq!(p.mass, ELECTRON_MASS);
    assert_eq!(p.radius, 500_000);
    assert_eq!(p.charge.charge(), -1_000_000);
}

#[test]
fn photon_is_massless() {
    let p = Particle::photon();
    assert_eq!(p.kind, Kind::Photon);
    assert_eq!(p.mass, 0);
    assert_eq!(p.radius, 100_000);
    assert_eq!(p.charge.charge(), 0);
}

#[test]
fn default_particle_is_proton() {
    assert_eq!(Particle::default(), Particle::proton());
}

#[test]
fn charge_values_keep_sign() {
    assert_eq!(Charge::Positive(250).charge(), 250);
    assert_eq!(Charge::Negative(-250).charge(), -250);
    assert_eq!(Charge::Neutral.charge(), 0);
}

#[test]
fn nucleon_kinds() {
    assert!(Kind::Proton.is_nucleon());
    assert!(Kind::Neutron.is_nucleon());
    assert!(!Kind::Electron.is_nucleon());
    assert!(!Kind::Photon.is_nucleon());
}

#[test]
fn kind_colors() {
    assert_eq!(Particle::proton().get_color(), Rgb { r: 243, g: 139, b: 168 });
    assert_eq!(Particle::neutron().get_color(), Rgb { r: 180, g: 190, b: 254 });
    assert_eq!(Particle::electron().get_color(), Rgb { r: 166, g: 227, b: 161 });
    assert_eq!(Kind::Photon.color(), Rgb { r: 249, g: 226, b: 175 });
}
