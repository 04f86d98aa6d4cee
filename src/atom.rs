//! Atoms: nuclei recognised as elements, and their tracked records.

use vstd::prelude::*;

use crate::cluster::Position;
use crate::element::{element_for, valid_proton_count, Element};

verus! {

/// Why an atom could not be made.
#[derive(Clone, Copy, Debug, PartialEq, Eq, Structural, Hash)]
pub enum AtomError {
    /// No element has this many protons.
    InvalidProtonCount(u32),
}

/// A nucleus recognised as an element.
#[derive(Clone, Debug)]
pub struct Atom {
    pub element: Element,
    pub proton_count: u32,
    pub neutron_count: u32,
    pub electron_count: u32,
    pub constituent_particles: Vec<u64>,
}

impl Atom {
    /// Makes an atom, deriving its element from the proton count.
    pub fn new(
        proton_count: u32,
        neutron_count: u32,
        electron_count: u32,
        constituent_particles: Vec<u64>,
    ) -> (r: Result<Atom, AtomError>)
        ensures
            r is Ok <==> valid_proton_count(proton_count as int),
            r matches Ok(a) ==> {
                &&& element_for(proton_count as usize) == Some(a.element)
                &&& a.proton_count == proton_count
                &&& a.neutron_count == neutron_count
                &&& a.electron_count == electron_count
                &&& a.constituent_particles@ == constituent_particles@
            },
            r matches Err(e) ==> e == AtomError::InvalidProtonCount(proton_count),
    {
        match Element::from_proton_count(proton_count as usize) {
            Some(element) => Ok(Atom {
                element,
                proton_count,
                neutron_count,
                electron_count,
                constituent_particles,
            }),
            None => Err(AtomError::InvalidProtonCount(proton_count)),
        }
    }

    /// Number of nucleons.
    pub fn count(&self) -> (r: u32)
        requires
            self.proton_count + self.neutron_count <= u32::MAX,
        ensures
            r == self.proton_count + self.neutron_count,
    {
        self.proton_count + self.neutron_count
    }
}

/// A tracked atom as the contracts see it.
pub struct AtomState {
    pub id: u64,
    pub element: Element,
    pub proton_count: u32,
    pub neutron_count: u32,
    pub electron_count: u32,
    pub constituents: Seq<u64>,
    pub center: Position,
    pub selected: bool,
}

/// An atom with its identity, position and selection flag.
#[derive(Debug)]
pub struct AtomRecord {
    pub id: u64,
    pub atom: Atom,
    pub center: Position,
    pub selected: bool,
}

impl View for AtomRecord {
    type V = AtomState;

    open spec fn view(&self) -> AtomState {
        AtomState {
            id: self.id,
            element: self.atom.element,
            proton_count: self.atom.proton_count,
            neutron_count: self.atom.neutron_count,
            electron_count: self.atom.electron_count,
            constituents: self.atom.constituent_particles@,
            center: self.center,
            selected: self.selected,
        }
    }
}

/// Views of a sequence of records.
pub open spec fn views(v: Seq<AtomRecord>) -> Seq<AtomState> {
    v.map_values(|r: AtomRecord| r@)
}

/// `a` with its selection flag set to `s`.
pub open spec fn with_selected(a: AtomState, s: bool) -> AtomState {
    AtomState { selected: s, ..a }
}

} // verus!
