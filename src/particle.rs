//! Particle kinds and their static properties.

use vstd::prelude::*;

use crate::element::Rgb;

verus! {

/// Fixed-point scale: quantities (mass, charge, radius, lengths) are held as
/// whole millionths of a simulation unit.
pub const UNIT: i64 = 1_000_000;

/// Proton mass, the unit of mass.
pub const PROTON_MASS: u64 = 1_000_000;

/// Neutron mass relative to the proton.
pub const NEUTRON_MASS: u64 = 1_008_665;

/// Electron mass relative to the proton.
pub const ELECTRON_MASS: u64 = 545;

/// Kinds of particle in the simulation.
#[derive(Clone, Copy, Debug, PartialEq, Eq, Structural, Hash)]
pub enum Kind {
    Proton,
    Neutron,
    Electron,
    Photon,
}

/// Electric charge of a particle, in millionths of the elementary charge.
/// A negative charge carries its signed value.
#[derive(Clone, Copy, Debug, PartialEq, Eq, Structural, Hash)]
pub enum Charge {
    Positive(i64),
    Negative(i64),
    Neutral,
}

/// Signed charge value; zero when neutral.
pub open spec fn charge_value(c: Charge) -> int {
    match c {
        Charge::Positive(v) => v as int,
        Charge::Negative(v) => v as int,
        Charge::Neutral => 0,
    }
}

impl Charge {
    /// The signed scalar of this charge.
    pub fn charge(&self) -> (r: i64)
        ensures
            r == charge_value(*self),
    {
        match self {
            Charge::Positive(value) => *value,
            Charge::Negative(value) => *value,
            Charge::Neutral => 0,
        }
    }
}

/// Protons and neutrons make up nuclei.
pub open spec fn is_nucleon(k: Kind) -> bool {
    k == Kind::Proton || k == Kind::Neutron
}

/// Display colour of each particle kind.
pub open spec fn kind_color(k: Kind) -> Rgb {
    match k {
        Kind::Proton => Rgb { r: 243, g: 139, b: 168 },
        Kind::Neutron => Rgb { r: 180, g: 190, b: 254 },
        Kind::Electron => Rgb { r: 166, g: 227, b: 161 },
        Kind::Photon => Rgb { r: 249, g: 226, b: 175 },
    }
}

impl Kind {
    /// Whether this kind takes part in nuclei.
    pub fn is_nucleon(&self) -> (r: bool)
        ensures
            r == is_nucleon(*self),
    {
        match self {
            Kind::Proton | Kind::Neutron => true,
            _ => false,
        }
    }

    /// Display colour of this kind.
    pub fn color(&self) -> (r: Rgb)
        ensures
            r == kind_color(*self),
    {
        match self {
            Kind::Proton => Rgb { r: 243, g: 139, b: 168 },
            Kind::Neutron => Rgb { r: 180, g: 190, b: 254 },
            Kind::Electron => Rgb { r: 166, g: 227, b: 161 },
            Kind::Photon => Rgb { r: 249, g: 226, b: 175 },
        }
    }
}

/// Static description of a particle. Mass is in millionths of the proton
/// mass, radius in millionths of a unit length.
#[derive(Clone, Copy, Debug, PartialEq, Eq, Structural, Hash)]
pub struct Particle {
    pub kind: Kind,
    pub mass: u64,
    pub radius: u64,
    pub charge: Charge,
}

impl Particle {
    /// A photon is massless; every other kind has a positive radius.
    pub open spec fn wf(&self) -> bool {
        &&& (self.kind == Kind::Photon ==> self.mass == 0)
        &&& (self.kind != Kind::Photon ==> self.radius > 0)
    }

    /// A proton: unit mass, unit radius, one positive charge.
    pub fn proton() -> (r: Particle)
        ensures
            r.wf(),
            r.kind == Kind::Proton,
            r.mass == PROTON_MASS,
            r.radius == UNIT,
            r.charge == Charge::Positive(UNIT),
    {
        Particle { kind: Kind::Proton, mass: PROTON_MASS, radius: 1_000_000, charge: Charge::Positive(UNIT) }
    }

    /// A neutron: slightly heavier than a proton, uncharged.
    pub fn neutron() -> (r: Particle)
        ensures
            r.wf(),
            r.kind == Kind::Neutron,
            r.mass == NEUTRON_MASS,
            r.radius == UNIT,
            r.charge == Charge::Neutral,
    {
        Particle { kind: Kind::Neutron, mass: NEUTRON_MASS, radius: 1_000_000, charge: Charge::Neutral }
    }

    /// An electron: light, half the radius, one negative charge.
    pub fn electron() -> (r: Particle)
        ensures
            r.wf(),
            r.kind == Kind::Electron,
            r.mass == ELECTRON_MASS,
            r.radius == UNIT / 2,
            charge_value(r.charge) == -UNIT,
            r.charge is Negative,
    {
        Particle {
            kind: Kind::Electron,
            mass: ELECTRON_MASS,
            radius: 500_000,
            charge: Charge::Negative(-1_000_000),
        }
    }

    /// A photon: massless, small, uncharged.
    pub fn photon() -> (r: Particle)
        ensures
            r.wf(),
            r.kind == Kind::Photon,
            r.mass == 0,
            r.radius == UNIT / 10,
            r.charge == Charge::Neutral,
    {
        Particle { kind: Kind::Photon, mass: 0, radius: 100_000, charge: Charge::Neutral }
    }

    /// Display colour of this particle, by kind.
    pub fn get_color(&self) -> (r: Rgb)
        ensures
            r == kind_color(self.kind),
    {
        self.kind.color()
    }
}

impl Default for Particle {
    fn default() -> (r: Particle)
        ensures
            r.kind == Kind::Proton,
            r.mass == PROTON_MASS,
            r.radius == UNIT,
            r.charge == Charge::Positive(UNIT),
    {
        Particle::proton()
    }
}

} // verus!
