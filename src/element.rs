//! The periodic table: element lookup by proton count, symbols and display
//! colours.

use vstd::prelude::*;

verus! {

/// Highest proton count that names an element.
pub const MAX_PROTON_COUNT: u32 = 118;

/// Whether `n` protons make a known element.
pub open spec fn valid_proton_count(n: int) -> bool {
    1 <= n <= MAX_PROTON_COUNT
}

/// The chemical elements in order of atomic number.
///
/// The last variant is a fictional element that the table carries for
/// display purposes only: no proton count maps to it.
#[derive(Clone, Copy, Debug, PartialEq, Eq, Structural, Hash)]
pub enum Element {
    Hydrogen,
    Helium,
    Lithium,
    Beryllium,
    Boron,
    Carbon,
    Nitrogen,
    Oxygen,
    Fluorine,
    Neon,
    Sodium,
    Magnesium,
    Aluminum,
    Silicon,
    Phosphorus,
    Sulfur,
    Chlorine,
    Argon,
    Potassium,
    Calcium,
    Scandium,
    Titanium,
    Vanadium,
    Chromium,
    Manganese,
    Iron,
    Cobalt,
    Nickel,
    Copper,
    Zinc,
    Gallium,
    Germanium,
    Arsenic,
    Selenium,
    Bromine,
    Krypton,
    Rubidium,
    Strontium,
    Yttrium,
    Zirconium,
    Niobium,
    Molybdenum,
    Technetium,
    Ruthenium,
    Rhodium,
    Palladium,
    Silver,
    Cadmium,
    Indium,
    Tin,
    Antimony,
    Tellurium,
    Iodine,
    Xenon,
    Caesium,
    Barium,
    Lanthanum,
    Cerium,
    Praseodymium,
    Neodymium,
    Promethium,
    Samarium,
    Europium,
    Gadolinium,
    Terbium,
    Dysprosium,
    Holmium,
    Erbium,
    Thulium,
    Ytterbium,
    Lutetium,
    Hafnium,
    Tantalum,
    Tungsten,
    Rhenium,
    Osmium,
    Iridium,
    Platinum,
    Gold,
    Mercury,
    Thallium,
    Lead,
    Bismuth,
    Polonium,
    Astatine,
    Radon,
    Francium,
    Radium,
    Actinium,
    Thorium,
    Protactinium,
    Uranium,
    Neptunium,
    Plutonium,
    Americium,
    Curium,
    Berkelium,
    Californium,
    Einsteinium,
    Fermium,
    Mendelevium,
    Nobelium,
    Lawrencium,
    Rutherfordium,
    Dubnium,
    Seaborgium,
    Bohrium,
    Hassium,
    Meitnerium,
    Darmstadtium,
    Roentgenium,
    Copernicium,
    Nihonium,
    Flerovium,
    Moscovium,
    Livermorium,
    Tennessine,
    Oganesson,
    Kevorkium,
}

/// Short chemical symbols, in the same order as [`Element`].
#[derive(Clone, Copy, Debug, PartialEq, Eq, Structural, Hash)]
pub enum ElementSymbol {
    H,
    He,
    Li,
    Be,
    B,
    C,
    N,
    O,
    F,
    Ne,
    Na,
    Mg,
    Al,
    Si,
    P,
    S,
    Cl,
    Ar,
    K,
    Ca,
    Sc,
    Ti,
    V,
    Cr,
    Mn,
    Fe,
    Co,
    Ni,
    Cu,
    Zn,
    Ga,
    Ge,
    As,
    Se,
    Br,
    Kr,
    Rb,
    Sr,
    Y,
    Zr,
    Nb,
    Mo,
    Tc,
    Ru,
    Rh,
    Pd,
    Ag,
    Cd,
    In,
    Sn,
    Sb,
    Te,
    I,
    Xe,
    Cs,
    Ba,
    La,
    Ce,
    Pr,
    Nd,
    Pm,
    Sm,
    Eu,
    Gd,
    Tb,
    Dy,
    Ho,
    Er,
    Tm,
    Yb,
    Lu,
    Hf,
    Ta,
    W,
    Re,
    Os,
    Ir,
    Pt,
    Au,
    Hg,
    Tl,
    Pb,
    Bi,
    Po,
    At,
    Rn,
    Fr,
    Ra,
    Ac,
    Th,
    Pa,
    U,
    Np,
    Pu,
    Am,
    Cm,
    Bk,
    Cf,
    Es,
    Fm,
    Md,
    No,
    Lr,
    Rf,
    Db,
    Sg,
    Bh,
    Hs,
    Mt,
    Ds,
    Rg,
    Cn,
    Nh,
    Fl,
    Mc,
    Lv,
    Ts,
    Og,
    Kv,
}

/// A display colour with 8-bit channels.
#[derive(Clone, Copy, Debug, PartialEq, Eq, Structural, Hash)]
pub struct Rgb {
    pub r: u8,
    pub g: u8,
    pub b: u8,
}

/// Atomic number of an element: its position in the table, from 1.
pub open spec fn atomic_number(e: Element) -> nat {
    match e {
        Element::Hydrogen => 1,
        Element::Helium => 2,
        Element::Lithium => 3,
        Element::Beryllium => 4,
        Element::Boron => 5,
        Element::Carbon => 6,
        Element::Nitrogen => 7,
        Element::Oxygen => 8,
        Element::Fluorine => 9,
        Element::Neon => 10,
        Element::Sodium => 11,
        Element::Magnesium => 12,
        Element::Aluminum => 13,
        Element::Silicon => 14,
        Element::Phosphorus => 15,
        Element::Sulfur => 16,
        Element::Chlorine => 17,
        Element::Argon => 18,
        Element::Potassium => 19,
        Element::Calcium => 20,
        Element::Scandium => 21,
        Element::Titanium => 22,
        Element::Vanadium => 23,
        Element::Chromium => 24,
        Element::Manganese => 25,
        Element::Iron => 26,
        Element::Cobalt => 27,
        Element::Nickel => 28,
        Element::Copper => 29,
        Element::Zinc => 30,
        Element::Gallium => 31,
        Element::Germanium => 32,
        Element::Arsenic => 33,
        Element::Selenium => 34,
        Element::Bromine => 35,
        Element::Krypton => 36,
        Element::Rubidium => 37,
        Element::Strontium => 38,
        Element::Yttrium => 39,
        Element::Zirconium => 40,
        Element::Niobium => 41,
        Element::Molybdenum => 42,
        Element::Technetium => 43,
        Element::Ruthenium => 44,
        Element::Rhodium => 45,
        Element::Palladium => 46,
        Element::Silver => 47,
        Element::Cadmium => 48,
        Element::Indium => 49,
        Element::Tin => 50,
        Element::Antimony => 51,
        Element::Tellurium => 52,
        Element::Iodine => 53,
        Element::Xenon => 54,
        Element::Caesium => 55,
        Element::Barium => 56,
        Element::Lanthanum => 57,
        Element::Cerium => 58,
        Element::Praseodymium => 59,
        Element::Neodymium => 60,
        Element::Promethium => 61,
        Element::Samarium => 62,
        Element::Europium => 63,
        Element::Gadolinium => 64,
        Element::Terbium => 65,
        Element::Dysprosium => 66,
        Element::Holmium => 67,
        Element::Erbium => 68,
        Element::Thulium => 69,
        Element::Ytterbium => 70,
        Element::Lutetium => 71,
        Element::Hafnium => 72,
        Element::Tantalum => 73,
        Element::Tungsten => 74,
        Element::Rhenium => 75,
        Element::Osmium => 76,
        Element::Iridium => 77,
        Element::Platinum => 78,
        Element::Gold => 79,
        Element::Mercury => 80,
        Element::Thallium => 81,
        Element::Lead => 82,
        Element::Bismuth => 83,
        Element::Polonium => 84,
        Element::Astatine => 85,
        Element::Radon => 86,
        Element::Francium => 87,
        Element::Radium => 88,
        Element::Actinium => 89,
        Element::Thorium => 90,
        Element::Protactinium => 91,
        Element::Uranium => 92,
        Element::Neptunium => 93,
        Element::Plutonium => 94,
        Element::Americium => 95,
        Element::Curium => 96,
        Element::Berkelium => 97,
        Element::Californium => 98,
        Element::Einsteinium => 99,
        Element::Fermium => 100,
        Element::Mendelevium => 101,
        Element::Nobelium => 102,
        Element::Lawrencium => 103,
        Element::Rutherfordium => 104,
        Element::Dubnium => 105,
        Element::Seaborgium => 106,
        Element::Bohrium => 107,
        Element::Hassium => 108,
        Element::Meitnerium => 109,
        Element::Darmstadtium => 110,
        Element::Roentgenium => 111,
        Element::Copernicium => 112,
        Element::Nihonium => 113,
        Element::Flerovium => 114,
        Element::Moscovium => 115,
        Element::Livermorium => 116,
        Element::Tennessine => 117,
        Element::Oganesson => 118,
        Element::Kevorkium => 119,
    }
}

/// Atomic number of the element that a symbol stands for.
pub open spec fn symbol_number(s: ElementSymbol) -> nat {
    match s {
        ElementSymbol::H => 1,
        ElementSymbol::He => 2,
        ElementSymbol::Li => 3,
        ElementSymbol::Be => 4,
        ElementSymbol::B => 5,
        ElementSymbol::C => 6,
        ElementSymbol::N => 7,
        ElementSymbol::O => 8,
        ElementSymbol::F => 9,
        ElementSymbol::Ne => 10,
        ElementSymbol::Na => 11,
        ElementSymbol::Mg => 12,
        ElementSymbol::Al => 13,
        ElementSymbol::Si => 14,
        ElementSymbol::P => 15,
        ElementSymbol::S => 16,
        ElementSymbol::Cl => 17,
        ElementSymbol::Ar => 18,
        ElementSymbol::K => 19,
        ElementSymbol::Ca => 20,
        ElementSymbol::Sc => 21,
        ElementSymbol::Ti => 22,
        ElementSymbol::V => 23,
        ElementSymbol::Cr => 24,
        ElementSymbol::Mn => 25,
        ElementSymbol::Fe => 26,
        ElementSymbol::Co => 27,
        ElementSymbol::Ni => 28,
        ElementSymbol::Cu => 29,
        ElementSymbol::Zn => 30,
        ElementSymbol::Ga => 31,
        ElementSymbol::Ge => 32,
        ElementSymbol::As => 33,
        ElementSymbol::Se => 34,
        ElementSymbol::Br => 35,
        ElementSymbol::Kr => 36,
        ElementSymbol::Rb => 37,
        ElementSymbol::Sr => 38,
        ElementSymbol::Y => 39,
        ElementSymbol::Zr => 40,
        ElementSymbol::Nb => 41,
        ElementSymbol::Mo => 42,
        ElementSymbol::Tc => 43,
        ElementSymbol::Ru => 44,
        ElementSymbol::Rh => 45,
        ElementSymbol::Pd => 46,
        ElementSymbol::Ag => 47,
        ElementSymbol::Cd => 48,
        ElementSymbol::In => 49,
        ElementSymbol::Sn => 50,
        ElementSymbol::Sb => 51,
        ElementSymbol::Te => 52,
        ElementSymbol::I => 53,
        ElementSymbol::Xe => 54,
        ElementSymbol::Cs => 55,
        ElementSymbol::Ba => 56,
        ElementSymbol::La => 57,
        ElementSymbol::Ce => 58,
        ElementSymbol::Pr => 59,
        ElementSymbol::Nd => 60,
        ElementSymbol::Pm => 61,
        ElementSymbol::Sm => 62,
        ElementSymbol::Eu => 63,
        ElementSymbol::Gd => 64,
        ElementSymbol::Tb => 65,
        ElementSymbol::Dy => 66,
        ElementSymbol::Ho => 67,
        ElementSymbol::Er => 68,
        ElementSymbol::Tm => 69,
        ElementSymbol::Yb => 70,
        ElementSymbol::Lu => 71,
        ElementSymbol::Hf => 72,
        ElementSymbol::Ta => 73,
        ElementSymbol::W => 74,
        ElementSymbol::Re => 75,
        ElementSymbol::Os => 76,
        ElementSymbol::Ir => 77,
        ElementSymbol::Pt => 78,
        ElementSymbol::Au => 79,
        ElementSymbol::Hg => 80,
        ElementSymbol::Tl => 81,
        ElementSymbol::Pb => 82,
        ElementSymbol::Bi => 83,
        ElementSymbol::Po => 84,
        ElementSymbol::At => 85,
        ElementSymbol::Rn => 86,
        ElementSymbol::Fr => 87,
        ElementSymbol::Ra => 88,
        ElementSymbol::Ac => 89,
        ElementSymbol::Th => 90,
        ElementSymbol::Pa => 91,
        ElementSymbol::U => 92,
        ElementSymbol::Np => 93,
        ElementSymbol::Pu => 94,
        ElementSymbol::Am => 95,
        ElementSymbol::Cm => 96,
        ElementSymbol::Bk => 97,
        ElementSymbol::Cf => 98,
        ElementSymbol::Es => 99,
        ElementSymbol::Fm => 100,
        ElementSymbol::Md => 101,
        ElementSymbol::No => 102,
        ElementSymbol::Lr => 103,
        ElementSymbol::Rf => 104,
        ElementSymbol::Db => 105,
        ElementSymbol::Sg => 106,
        ElementSymbol::Bh => 107,
        ElementSymbol::Hs => 108,
        ElementSymbol::Mt => 109,
        ElementSymbol::Ds => 110,
        ElementSymbol::Rg => 111,
        ElementSymbol::Cn => 112,
        ElementSymbol::Nh => 113,
        ElementSymbol::Fl => 114,
        ElementSymbol::Mc => 115,
        ElementSymbol::Lv => 116,
        ElementSymbol::Ts => 117,
        ElementSymbol::Og => 118,
        ElementSymbol::Kv => 119,
    }
}

/// The colour with channels `r`, `g`, `b`.
pub open spec fn rgb(r: u8, g: u8, b: u8) -> Rgb {
    Rgb { r, g, b }
}

/// CPK-style display colour of an element; elements outside the listed
/// families share a default pink.
pub open spec fn element_color(e: Element) -> Rgb {
    match e {
        Element::Hydrogen => rgb(205, 214, 244),
        Element::Carbon => rgb(17, 17, 27),
        Element::Nitrogen => rgb(137, 180, 250),
        Element::Oxygen => rgb(235, 160, 172),
        Element::Fluorine | Element::Chlorine => rgb(166, 227, 161),
        Element::Bromine => rgb(243, 139, 168),
        Element::Iodine | Element::Kevorkium => rgb(203, 166, 247),
        Element::Helium | Element::Neon | Element::Argon | Element::Krypton | Element::Xenon | Element::Radon => rgb(148, 226, 213),
        Element::Phosphorus => rgb(250, 179, 135),
        Element::Sulfur => rgb(249, 226, 175),
        Element::Boron => rgb(245, 224, 220),
        Element::Lithium | Element::Sodium | Element::Potassium | Element::Rubidium | Element::Caesium | Element::Francium => rgb(245, 194, 231),
        Element::Beryllium | Element::Magnesium | Element::Calcium | Element::Strontium | Element::Barium | Element::Radium => rgb(166, 227, 161),
        Element::Titanium => rgb(147, 153, 178),
        Element::Iron => rgb(250, 179, 135),
        _ => rgb(242, 205, 205),
    }
}

/// The element with `n` protons, for `n` from 1 to the table maximum.
pub open spec fn element_for(n: usize) -> Option<Element> {
    match n {
        1 => Some(Element::Hydrogen),
        2 => Some(Element::Helium),
        3 => Some(Element::Lithium),
        4 => Some(Element::Beryllium),
        5 => Some(Element::Boron),
        6 => Some(Element::Carbon),
        7 => Some(Element::Nitrogen),
        8 => Some(Element::Oxygen),
        9 => Some(Element::Fluorine),
        10 => Some(Element::Neon),
        11 => Some(Element::Sodium),
        12 => Some(Element::Magnesium),
        13 => Some(Element::Aluminum),
        14 => Some(Element::Silicon),
        15 => Some(Element::Phosphorus),
        16 => Some(Element::Sulfur),
        17 => Some(Element::Chlorine),
        18 => Some(Element::Argon),
        19 => Some(Element::Potassium),
        20 => Some(Element::Calcium),
        21 => Some(Element::Scandium),
        22 => Some(Element::Titanium),
        23 => Some(Element::Vanadium),
        24 => Some(Element::Chromium),
        25 => Some(Element::Manganese),
        26 => Some(Element::Iron),
        27 => Some(Element::Cobalt),
        28 => Some(Element::Nickel),
        29 => Some(Element::Copper),
        30 => Some(Element::Zinc),
        31 => Some(Element::Gallium),
        32 => Some(Element::Germanium),
        33 => Some(Element::Arsenic),
        34 => Some(Element::Selenium),
        35 => Some(Element::Bromine),
        36 => Some(Element::Krypton),
        37 => Some(Element::Rubidium),
        38 => Some(Element::Strontium),
        39 => Some(Element::Yttrium),
        40 => Some(Element::Zirconium),
        41 => Some(Element::Niobium),
        42 => Some(Element::Molybdenum),
        43 => Some(Element::Technetium),
        44 => Some(Element::Ruthenium),
        45 => Some(Element::Rhodium),
        46 => Some(Element::Palladium),
        47 => Some(Element::Silver),
        48 => Some(Element::Cadmium),
        49 => Some(Element::Indium),
        50 => Some(Element::Tin),
        51 => Some(Element::Antimony),
        52 => Some(Element::Tellurium),
        53 => Some(Element::Iodine),
        54 => Some(Element::Xenon),
        55 => Some(Element::Caesium),
        56 => Some(Element::Barium),
        57 => Some(Element::Lanthanum),
        58 => Some(Element::Cerium),
        59 => Some(Element::Praseodymium),
        60 => Some(Element::Neodymium),
        61 => Some(Element::Promethium),
        62 => Some(Element::Samarium),
        63 => Some(Element::Europium),
        64 => Some(Element::Gadolinium),
        65 => Some(Element::Terbium),
        66 => Some(Element::Dysprosium),
        67 => Some(Element::Holmium),
        68 => Some(Element::Erbium),
        69 => Some(Element::Thulium),
        70 => Some(Element::Ytterbium),
        71 => Some(Element::Lutetium),
        72 => Some(Element::Hafnium),
        73 => Some(Element::Tantalum),
        74 => Some(Element::Tungsten),
        75 => Some(Element::Rhenium),
        76 => Some(Element::Osmium),
        77 => Some(Element::Iridium),
        78 => Some(Element::Platinum),
        79 => Some(Element::Gold),
        80 => Some(Element::Mercury),
        81 => Some(Element::Thallium),
        82 => Some(Element::Lead),
        83 => Some(Element::Bismuth),
        84 => Some(Element::Polonium),
        85 => Some(Element::Astatine),
        86 => Some(Element::Radon),
        87 => Some(Element::Francium),
        88 => Some(Element::Radium),
        89 => Some(Element::Actinium),
        90 => Some(Element::Thorium),
        91 => Some(Element::Protactinium),
        92 => Some(Element::Uranium),
        93 => Some(Element::Neptunium),
        94 => Some(Element::Plutonium),
        95 => Some(Element::Americium),
        96 => Some(Element::Curium),
        97 => Some(Element::Berkelium),
        98 => Some(Element::Californium),
        99 => Some(Element::Einsteinium),
        100 => Some(Element::Fermium),
        101 => Some(Element::Mendelevium),
        102 => Some(Element::Nobelium),
        103 => Some(Element::Lawrencium),
        104 => Some(Element::Rutherfordium),
        105 => Some(Element::Dubnium),
        106 => Some(Element::Seaborgium),
        107 => Some(Element::Bohrium),
        108 => Some(Element::Hassium),
        109 => Some(Element::Meitnerium),
        110 => Some(Element::Darmstadtium),
        111 => Some(Element::Roentgenium),
        112 => Some(Element::Copernicium),
        113 => Some(Element::Nihonium),
        114 => Some(Element::Flerovium),
        115 => Some(Element::Moscovium),
        116 => Some(Element::Livermorium),
        117 => Some(Element::Tennessine),
        118 => Some(Element::Oganesson),
        _ => None,
    }
}

impl Element {
    /// The element with `proton_count` protons, if the table has one.
    pub fn from_proton_count(proton_count: usize) -> (r: Option<Element>)
        ensures
            r is Some <==> valid_proton_count(proton_count as int),
            r matches Some(e) ==> atomic_number(e) == proton_count,
            r == element_for(proton_count),
    {
        match proton_count {
            1 => Some(Element::Hydrogen),
            2 => Some(Element::Helium),
            3 => Some(Element::Lithium),
            4 => Some(Element::Beryllium),
            5 => Some(Element::Boron),
            6 => Some(Element::Carbon),
            7 => Some(Element::Nitrogen),
            8 => Some(Element::Oxygen),
            9 => Some(Element::Fluorine),
            10 => Some(Element::Neon),
            11 => Some(Element::Sodium),
            12 => Some(Element::Magnesium),
            13 => Some(Element::Aluminum),
            14 => Some(Element::Silicon),
            15 => Some(Element::Phosphorus),
            16 => Some(Element::Sulfur),
            17 => Some(Element::Chlorine),
            18 => Some(Element::Argon),
            19 => Some(Element::Potassium),
            20 => Some(Element::Calcium),
            21 => Some(Element::Scandium),
            22 => Some(Element::Titanium),
            23 => Some(Element::Vanadium),
            24 => Some(Element::Chromium),
            25 => Some(Element::Manganese),
            26 => Some(Element::Iron),
            27 => Some(Element::Cobalt),
            28 => Some(Element::Nickel),
            29 => Some(Element::Copper),
            30 => Some(Element::Zinc),
            31 => Some(Element::Gallium),
            32 => Some(Element::Germanium),
            33 => Some(Element::Arsenic),
            34 => Some(Element::Selenium),
            35 => Some(Element::Bromine),
            36 => Some(Element::Krypton),
            37 => Some(Element::Rubidium),
            38 => Some(Element::Strontium),
            39 => Some(Element::Yttrium),
            40 => Some(Element::Zirconium),
            41 => Some(Element::Niobium),
            42 => Some(Element::Molybdenum),
            43 => Some(Element::Technetium),
            44 => Some(Element::Ruthenium),
            45 => Some(Element::Rhodium),
            46 => Some(Element::Palladium),
            47 => Some(Element::Silver),
            48 => Some(Element::Cadmium),
            49 => Some(Element::Indium),
            50 => Some(Element::Tin),
            51 => Some(Element::Antimony),
            52 => Some(Element::Tellurium),
            53 => Some(Element::Iodine),
            54 => Some(Element::Xenon),
            55 => Some(Element::Caesium),
            56 => Some(Element::Barium),
            57 => Some(Element::Lanthanum),
            58 => Some(Element::Cerium),
            59 => Some(Element::Praseodymium),
            60 => Some(Element::Neodymium),
            61 => Some(Element::Promethium),
            62 => Some(Element::Samarium),
            63 => Some(Element::Europium),
            64 => Some(Element::Gadolinium),
            65 => Some(Element::Terbium),
            66 => Some(Element::Dysprosium),
            67 => Some(Element::Holmium),
            68 => Some(Element::Erbium),
            69 => Some(Element::Thulium),
            70 => Some(Element::Ytterbium),
            71 => Some(Element::Lutetium),
            72 => Some(Element::Hafnium),
            73 => Some(Element::Tantalum),
            74 => Some(Element::Tungsten),
            75 => Some(Element::Rhenium),
            76 => Some(Element::Osmium),
            77 => Some(Element::Iridium),
            78 => Some(Element::Platinum),
            79 => Some(Element::Gold),
            80 => Some(Element::Mercury),
            81 => Some(Element::Thallium),
            82 => Some(Element::Lead),
            83 => Some(Element::Bismuth),
            84 => Some(Element::Polonium),
            85 => Some(Element::Astatine),
            86 => Some(Element::Radon),
            87 => Some(Element::Francium),
            88 => Some(Element::Radium),
            89 => Some(Element::Actinium),
            90 => Some(Element::Thorium),
            91 => Some(Element::Protactinium),
            92 => Some(Element::Uranium),
            93 => Some(Element::Neptunium),
            94 => Some(Element::Plutonium),
            95 => Some(Element::Americium),
            96 => Some(Element::Curium),
            97 => Some(Element::Berkelium),
            98 => Some(Element::Californium),
            99 => Some(Element::Einsteinium),
            100 => Some(Element::Fermium),
            101 => Some(Element::Mendelevium),
            102 => Some(Element::Nobelium),
            103 => Some(Element::Lawrencium),
            104 => Some(Element::Rutherfordium),
            105 => Some(Element::Dubnium),
            106 => Some(Element::Seaborgium),
            107 => Some(Element::Bohrium),
            108 => Some(Element::Hassium),
            109 => Some(Element::Meitnerium),
            110 => Some(Element::Darmstadtium),
            111 => Some(Element::Roentgenium),
            112 => Some(Element::Copernicium),
            113 => Some(Element::Nihonium),
            114 => Some(Element::Flerovium),
            115 => Some(Element::Moscovium),
            116 => Some(Element::Livermorium),
            117 => Some(Element::Tennessine),
            118 => Some(Element::Oganesson),
            _ => None,
        }
    }

    /// Atomic number of this element.
    pub fn number(&self) -> (r: u32)
        ensures
            r == atomic_number(*self),
    {
        match self {
            Element::Hydrogen => 1,
            Element::Helium => 2,
            Element::Lithium => 3,
            Element::Beryllium => 4,
            Element::Boron => 5,
            Element::Carbon => 6,
            Element::Nitrogen => 7,
            Element::Oxygen => 8,
            Element::Fluorine => 9,
            Element::Neon => 10,
            Element::Sodium => 11,
            Element::Magnesium => 12,
            Element::Aluminum => 13,
            Element::Silicon => 14,
            Element::Phosphorus => 15,
            Element::Sulfur => 16,
            Element::Chlorine => 17,
            Element::Argon => 18,
            Element::Potassium => 19,
            Element::Calcium => 20,
            Element::Scandium => 21,
            Element::Titanium => 22,
            Element::Vanadium => 23,
            Element::Chromium => 24,
            Element::Manganese => 25,
            Element::Iron => 26,
            Element::Cobalt => 27,
            Element::Nickel => 28,
            Element::Copper => 29,
            Element::Zinc => 30,
            Element::Gallium => 31,
            Element::Germanium => 32,
            Element::Arsenic => 33,
            Element::Selenium => 34,
            Element::Bromine => 35,
            Element::Krypton => 36,
            Element::Rubidium => 37,
            Element::Strontium => 38,
            Element::Yttrium => 39,
            Element::Zirconium => 40,
            Element::Niobium => 41,
            Element::Molybdenum => 42,
            Element::Technetium => 43,
            Element::Ruthenium => 44,
            Element::Rhodium => 45,
            Element::Palladium => 46,
            Element::Silver => 47,
            Element::Cadmium => 48,
            Element::Indium => 49,
            Element::Tin => 50,
            Element::Antimony => 51,
            Element::Tellurium => 52,
            Element::Iodine => 53,
            Element::Xenon => 54,
            Element::Caesium => 55,
            Element::Barium => 56,
            Element::Lanthanum => 57,
            Element::Cerium => 58,
            Element::Praseodymium => 59,
            Element::Neodymium => 60,
            Element::Promethium => 61,
            Element::Samarium => 62,
            Element::Europium => 63,
            Element::Gadolinium => 64,
            Element::Terbium => 65,
            Element::Dysprosium => 66,
            Element::Holmium => 67,
            Element::Erbium => 68,
            Element::Thulium => 69,
            Element::Ytterbium => 70,
            Element::Lutetium => 71,
            Element::Hafnium => 72,
            Element::Tantalum => 73,
            Element::Tungsten => 74,
            Element::Rhenium => 75,
            Element::Osmium => 76,
            Element::Iridium => 77,
            Element::Platinum => 78,
            Element::Gold => 79,
            Element::Mercury => 80,
            Element::Thallium => 81,
            Element::Lead => 82,
            Element::Bismuth => 83,
            Element::Polonium => 84,
            Element::Astatine => 85,
            Element::Radon => 86,
            Element::Francium => 87,
            Element::Radium => 88,
            Element::Actinium => 89,
            Element::Thorium => 90,
            Element::Protactinium => 91,
            Element::Uranium => 92,
            Element::Neptunium => 93,
            Element::Plutonium => 94,
            Element::Americium => 95,
            Element::Curium => 96,
            Element::Berkelium => 97,
            Element::Californium => 98,
            Element::Einsteinium => 99,
            Element::Fermium => 100,
            Element::Mendelevium => 101,
            Element::Nobelium => 102,
            Element::Lawrencium => 103,
            Element::Rutherfordium => 104,
            Element::Dubnium => 105,
            Element::Seaborgium => 106,
            Element::Bohrium => 107,
            Element::Hassium => 108,
            Element::Meitnerium => 109,
            Element::Darmstadtium => 110,
            Element::Roentgenium => 111,
            Element::Copernicium => 112,
            Element::Nihonium => 113,
            Element::Flerovium => 114,
            Element::Moscovium => 115,
            Element::Livermorium => 116,
            Element::Tennessine => 117,
            Element::Oganesson => 118,
            Element::Kevorkium => 119,
        }
    }

    /// Chemical symbol of this element.
    pub fn symbol(&self) -> (r: ElementSymbol)
        ensures
            symbol_number(r) == atomic_number(*self),
    {
        match self {
            Element::Hydrogen => ElementSymbol::H,
            Element::Helium => ElementSymbol::He,
            Element::Lithium => ElementSymbol::Li,
            Element::Beryllium => ElementSymbol::Be,
            Element::Boron => ElementSymbol::B,
            Element::Carbon => ElementSymbol::C,
            Element::Nitrogen => ElementSymbol::N,
            Element::Oxygen => ElementSymbol::O,
            Element::Fluorine => ElementSymbol::F,
            Element::Neon => ElementSymbol::Ne,
            Element::Sodium => ElementSymbol::Na,
            Element::Magnesium => ElementSymbol::Mg,
            Element::Aluminum => ElementSymbol::Al,
            Element::Silicon => ElementSymbol::Si,
            Element::Phosphorus => ElementSymbol::P,
            Element::Sulfur => ElementSymbol::S,
            Element::Chlorine => ElementSymbol::Cl,
            Element::Argon => ElementSymbol::Ar,
            Element::Potassium => ElementSymbol::K,
            Element::Calcium => ElementSymbol::Ca,
            Element::Scandium => ElementSymbol::Sc,
            Element::Titanium => ElementSymbol::Ti,
            Element::Vanadium => ElementSymbol::V,
            Element::Chromium => ElementSymbol::Cr,
            Element::Manganese => ElementSymbol::Mn,
            Element::Iron => ElementSymbol::Fe,
            Element::Cobalt => ElementSymbol::Co,
            Element::Nickel => ElementSymbol::Ni,
            Element::Copper => ElementSymbol::Cu,
            Element::Zinc => ElementSymbol::Zn,
            Element::Gallium => ElementSymbol::Ga,
            Element::Germanium => ElementSymbol::Ge,
            Element::Arsenic => ElementSymbol::As,
            Element::Selenium => ElementSymbol::Se,
            Element::Bromine => ElementSymbol::Br,
            Element::Krypton => ElementSymbol::Kr,
            Element::Rubidium => ElementSymbol::Rb,
            Element::Strontium => ElementSymbol::Sr,
            Element::Yttrium => ElementSymbol::Y,
            Element::Zirconium => ElementSymbol::Zr,
            Element::Niobium => ElementSymbol::Nb,
            Element::Molybdenum => ElementSymbol::Mo,
            Element::Technetium => ElementSymbol::Tc,
            Element::Ruthenium => ElementSymbol::Ru,
            Element::Rhodium => ElementSymbol::Rh,
            Element::Palladium => ElementSymbol::Pd,
            Element::Silver => ElementSymbol::Ag,
            Element::Cadmium => ElementSymbol::Cd,
            Element::Indium => ElementSymbol::In,
            Element::Tin => ElementSymbol::Sn,
            Element::Antimony => ElementSymbol::Sb,
            Element::Tellurium => ElementSymbol::Te,
            Element::Iodine => ElementSymbol::I,
            Element::Xenon => ElementSymbol::Xe,
            Element::Caesium => ElementSymbol::Cs,
            Element::Barium => ElementSymbol::Ba,
            Element::Lanthanum => ElementSymbol::La,
            Element::Cerium => ElementSymbol::Ce,
            Element::Praseodymium => ElementSymbol::Pr,
            Element::Neodymium => ElementSymbol::Nd,
            Element::Promethium => ElementSymbol::Pm,
            Element::Samarium => ElementSymbol::Sm,
            Element::Europium => ElementSymbol::Eu,
            Element::Gadolinium => ElementSymbol::Gd,
            Element::Terbium => ElementSymbol::Tb,
            Element::Dysprosium => ElementSymbol::Dy,
            Element::Holmium => ElementSymbol::Ho,
            Element::Erbium => ElementSymbol::Er,
            Element::Thulium => ElementSymbol::Tm,
            Element::Ytterbium => ElementSymbol::Yb,
            Element::Lutetium => ElementSymbol::Lu,
            Element::Hafnium => ElementSymbol::Hf,
            Element::Tantalum => ElementSymbol::Ta,
            Element::Tungsten => ElementSymbol::W,
            Element::Rhenium => ElementSymbol::Re,
            Element::Osmium => ElementSymbol::Os,
            Element::Iridium => ElementSymbol::Ir,
            Element::Platinum => ElementSymbol::Pt,
            Element::Gold => ElementSymbol::Au,
            Element::Mercury => ElementSymbol::Hg,
            Element::Thallium => ElementSymbol::Tl,
            Element::Lead => ElementSymbol::Pb,
            Element::Bismuth => ElementSymbol::Bi,
            Element::Polonium => ElementSymbol::Po,
            Element::Astatine => ElementSymbol::At,
            Element::Radon => ElementSymbol::Rn,
            Element::Francium => ElementSymbol::Fr,
            Element::Radium => ElementSymbol::Ra,
            Element::Actinium => ElementSymbol::Ac,
            Element::Thorium => ElementSymbol::Th,
            Element::Protactinium => ElementSymbol::Pa,
            Element::Uranium => ElementSymbol::U,
            Element::Neptunium => ElementSymbol::Np,
            Element::Plutonium => ElementSymbol::Pu,
            Element::Americium => ElementSymbol::Am,
            Element::Curium => ElementSymbol::Cm,
            Element::Berkelium => ElementSymbol::Bk,
            Element::Californium => ElementSymbol::Cf,
            Element::Einsteinium => ElementSymbol::Es,
            Element::Fermium => ElementSymbol::Fm,
            Element::Mendelevium => ElementSymbol::Md,
            Element::Nobelium => ElementSymbol::No,
            Element::Lawrencium => ElementSymbol::Lr,
            Element::Rutherfordium => ElementSymbol::Rf,
            Element::Dubnium => ElementSymbol::Db,
            Element::Seaborgium => ElementSymbol::Sg,
            Element::Bohrium => ElementSymbol::Bh,
            Element::Hassium => ElementSymbol::Hs,
            Element::Meitnerium => ElementSymbol::Mt,
            Element::Darmstadtium => ElementSymbol::Ds,
            Element::Roentgenium => ElementSymbol::Rg,
            Element::Copernicium => ElementSymbol::Cn,
            Element::Nihonium => ElementSymbol::Nh,
            Element::Flerovium => ElementSymbol::Fl,
            Element::Moscovium => ElementSymbol::Mc,
            Element::Livermorium => ElementSymbol::Lv,
            Element::Tennessine => ElementSymbol::Ts,
            Element::Oganesson => ElementSymbol::Og,
            Element::Kevorkium => ElementSymbol::Kv,
        }
    }

    /// Display colour of this element.
    pub fn color(&self) -> (r: Rgb)
        ensures
            r == element_color(*self),
    {
        match self {
            Element::Hydrogen => Rgb { r: 205, g: 214, b: 244 },
            Element::Carbon => Rgb { r: 17, g: 17, b: 27 },
            Element::Nitrogen => Rgb { r: 137, g: 180, b: 250 },
            Element::Oxygen => Rgb { r: 235, g: 160, b: 172 },
            Element::Fluorine | Element::Chlorine => Rgb { r: 166, g: 227, b: 161 },
            Element::Bromine => Rgb { r: 243, g: 139, b: 168 },
            Element::Iodine | Element::Kevorkium => Rgb { r: 203, g: 166, b: 247 },
            Element::Helium | Element::Neon | Element::Argon | Element::Krypton | Element::Xenon | Element::Radon => Rgb { r: 148, g: 226, b: 213 },
            Element::Phosphorus => Rgb { r: 250, g: 179, b: 135 },
            Element::Sulfur => Rgb { r: 249, g: 226, b: 175 },
            Element::Boron => Rgb { r: 245, g: 224, b: 220 },
            Element::Lithium | Element::Sodium | Element::Potassium | Element::Rubidium | Element::Caesium | Element::Francium => Rgb { r: 245, g: 194, b: 231 },
            Element::Beryllium | Element::Magnesium | Element::Calcium | Element::Strontium | Element::Barium | Element::Radium => Rgb { r: 166, g: 227, b: 161 },
            Element::Titanium => Rgb { r: 147, g: 153, b: 178 },
            Element::Iron => Rgb { r: 250, g: 179, b: 135 },
            _ => Rgb { r: 242, g: 205, b: 205 },
        }
    }
}

} // verus!
