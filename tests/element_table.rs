use universe::element::{Element, ElementSymbol, Rgb};

#[test]
fn zero_protons_name_no_element() {
    assert_eq!(Element::from_proton_count(0), None);
}

#[test]
fn one_proton_is_hydrogen() {
    assert_eq!(Element::from_proton_count(1), Some(Element::Hydrogen));
}

#[test]
fn table_ends_at_oganesson() {
    assert_eq!(Element::from_proton_count(118), Some(Element::Oganesson));
    assert_eq!(Element::from_proton_count(119), None);
    assert_eq!(Element::from_proton_count(1000), None);
}

#[test]
fn carbon_and_iron_positions() {
    assert_eq!(Element::from_proton_count(6), Some(Element::Carbon));
    assert_eq!(Element::from_proton_count(26), Some(Element::Iron));
    assert_eq!(Element::Iron.number(), 26);
}

#[test]
fn numbers_round_trip_through_lookup() {
    for n in 1..=118usize {
        let e = Element::from_proton_count(n).unwrap();
        assert_eq!(e.number() as usize, n);
    }
}

#[test]
fn symbols_follow_elements() {
    assert_eq!(Element::Hydrogen.symbol(), ElementSymbol::H);
    assert_eq!(Element::Helium.symbol(), ElementSymbol::He);
    assert_eq!(Element::Iron.symbol(), ElementSymbol::Fe);
    assert_eq!(Element::Oganesson.symbol(), ElementSymbol::Og);
    assert_eq!(Element::Kevorkium.symbol(), ElementSymbol::Kv);
}

#[test]
fn colors_by_family() {
    assert_eq!(Element::Hydrogen.color(), Rgb { r: 205, g: 214, b: 244 });
    assert_eq!(Element::Carbon.color(), Rgb { r: 17, g: 17, b: 27 });
    assert_eq!(Element::Neon.color(), Rgb { r: 148, g: 226, b: 213 });
    assert_eq!(Element::Radon.color(), Element::Helium.color());
    assert_eq!(Element::Sodium.color(), Rgb { r: 245, g: 194, b: 231 });
    assert_eq!(Element::Chlorine.color(), Element::Magnesium.color());
    assert_eq!(Element::Iron.color(), Element::Phosphorus.color());
}

#[test]
fn ungrouped_elements_share_default_color() {
    assert_eq!(Element::Gold.color(), Rgb { r: 242, g: 205, b: 205 });
    assert_eq!(Element::Uranium.color(), Rgb { r: 242, g: 205, b: 205 });
}
