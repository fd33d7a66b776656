use lau_mirror_symmetry::mirror_map::MirrorSide;
use lau_mirror_symmetry::{CalabiYauManifold, MirrorMap};

#[test]
fn test_quintic_mirror_map() {
    let mm = MirrorMap::quintic();
    assert_eq!(mm.kahler_moduli, 1);
    assert_eq!(mm.complex_moduli, 101);
}

#[test]
fn test_mirror_map_involution() {
    let q = CalabiYauManifold::quintic();
    let mm = MirrorMap::cy3_pair(&q).unwrap();
    assert!(mm.verify_involution());
}

#[test]
fn test_instanton_numbers() {
    let mm = MirrorMap::quintic();
    assert_eq!(mm.instanton_number(0), Some(1));
    assert_eq!(mm.instanton_number(1), Some(2875));
    assert_eq!(mm.instanton_number(2), Some(609250));
}

#[test]
fn test_mirror_side_equality() {
    assert_eq!(MirrorSide::AModel, MirrorSide::AModel);
    assert_ne!(MirrorSide::AModel, MirrorSide::BModel);
}

#[test]
fn test_custom_cy3_mirror_map() {
    let cy = CalabiYauManifold::cy3(3, 7, "TestCY");
    let mm = MirrorMap::cy3_pair(&cy).unwrap();
    assert_eq!(mm.kahler_moduli, 3);
    assert_eq!(mm.complex_moduli, 7);
}

#[test]
fn cy3_pair_fields() {
    let cy = CalabiYauManifold::cy3(3, 7, "TestCY");
    let mm = MirrorMap::cy3_pair(&cy).unwrap();
    assert_eq!(mm.source.name, "TestCY");
    assert_eq!(mm.source.hodge_numbers, cy.hodge_numbers);
    assert_eq!(mm.target.name, "Mirror(TestCY)");
    assert_eq!(mm.target.h11_h21(), Some((7, 3)));
    assert_eq!(mm.source_side, MirrorSide::AModel);
    assert!(MirrorMap::cy3_pair(&CalabiYauManifold::k3_surface()).is_none());
}

#[test]
fn quintic_map_is_involution_and_instantons_stop() {
    let mm = MirrorMap::quintic();
    assert!(mm.verify_involution());
    assert_eq!(mm.instanton_number(3), Some(317206375));
    assert_eq!(mm.instanton_number(4), None);
    assert_eq!(mm.target.euler_characteristic, 200);
}

#[test]
fn involution_fails_when_source_does_not_match() {
    let mut mm = MirrorMap::quintic();
    mm.source = CalabiYauManifold::cy3(2, 101, "Other");
    assert!(!mm.verify_involution());
    let mut flat = MirrorMap::quintic();
    flat.target = CalabiYauManifold::k3_surface();
    assert!(!flat.verify_involution());
}
