use calicomp::recipes::{Glassware, Preperation, Spirit, UnitKind, Whiskey};

#[test]
fn standard_dilution_figures() {
    assert_eq!(Preperation::Stirred.dilution(), Some(20));
    assert_eq!(Preperation::Shaken.dilution(), Some(20));
    assert_eq!(Preperation::BuildInGlass.dilution(), Some(0));
    assert_eq!(Preperation::Blended.dilution(), None);
    assert_eq!(Preperation::Other("swizzled".to_string()).dilution(), None);
}

#[test]
fn domain_kinds_are_distinguishable() {
    assert_ne!(Spirit::Gin, Spirit::Rum);
    assert_eq!(Spirit::Whiskey(Whiskey::Scotch), Spirit::Whiskey(Whiskey::Scotch));
    assert_ne!(Spirit::Whiskey(Whiskey::Scotch), Spirit::Whiskey(Whiskey::Irish));
    assert_ne!(Glassware::Martini, Glassware::NickAndNora);
    assert_eq!(UnitKind::Quanity, UnitKind::Quanity);
    assert_ne!(UnitKind::Volume, UnitKind::Mass);
}
