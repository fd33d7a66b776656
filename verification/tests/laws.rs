use lau_mirror_symmetry::agent_duality::AgentDuality;
use lau_mirror_symmetry::gromov_witten::GWTable;
use lau_mirror_symmetry::picard_fuchs::unipotent_monodromy_determinant;
use lau_mirror_symmetry::{
    CalabiYauManifold, CurveClass, GromovWittenInvariant, HodgeDiamond, MirrorMap,
};

#[test]
fn serre_duality_gives_hard_lefschetz() {
    let d = HodgeDiamond::new(vec![vec![1, 2, 3], vec![4, 5, 4], vec![3, 2, 1]]);
    assert!(d.verify_serre_duality());
    assert!(!d.verify_conjugation());
    assert!(d.verify_hard_lefschetz());
}

#[test]
fn diamond_euler_is_twice_difference() {
    for (h11, h21) in [(1u64, 101u64), (101, 1), (0, 0), (7, 13), (251, 11)] {
        let d = HodgeDiamond::cy3(h11, h21);
        let cy = CalabiYauManifold::cy3(h11, h21, "X");
        assert_eq!(d.euler_characteristic(), 2 * (h11 as i64 - h21 as i64));
        assert_eq!(d.euler_characteristic(), cy.euler_characteristic);
    }
}

#[test]
fn every_cy3_passes_all_checks() {
    for (h11, h21) in [(0u64, 0u64), (1, 101), (20, 20), (1000, 3)] {
        let cy = CalabiYauManifold::cy3(h11, h21, "X");
        assert!(cy.verify_calabi_yau());
        assert!(cy.verify_serre_duality());
        assert!(cy.verify_conjugation_symmetry());
        let d = HodgeDiamond::cy3(h11, h21);
        assert!(d.verify_conjugation());
        assert!(d.verify_serre_duality());
        assert!(d.verify_hard_lefschetz());
    }
}

#[test]
fn mirror_is_an_involution_on_diamonds() {
    for (h11, h21) in [(1u64, 101u64), (4, 4), (0, 9)] {
        let d = HodgeDiamond::cy3(h11, h21);
        let m = d.mirror().unwrap();
        assert_eq!(m.numbers, HodgeDiamond::cy3(h21, h11).numbers);
        assert_eq!(m.mirror().unwrap().numbers, d.numbers);
        assert_eq!(m.euler_characteristic(), -d.euler_characteristic());
    }
}

#[test]
fn mirror_maps_are_involutions() {
    for (h11, h21) in [(1u64, 101u64), (3, 7), (50, 50)] {
        let cy = CalabiYauManifold::cy3(h11, h21, "X");
        let mm = MirrorMap::cy3_pair(&cy).unwrap();
        assert!(mm.verify_involution());
        assert_eq!(mm.kahler_moduli as u64, mm.target.hodge(2, 1).unwrap());
        assert_eq!(mm.complex_moduli as u64, mm.target.hodge(1, 1).unwrap());
    }
    assert!(MirrorMap::quintic().verify_involution());
}

#[test]
fn instanton_numbers_match_gromov_witten() {
    let mm = MirrorMap::quintic();
    let table = GWTable::quintic_table();
    for d in 0u32..6 {
        let gw = GromovWittenInvariant::quintic_genus_zero(d).map(|g| g.value);
        assert_eq!(mm.instanton_number(d), gw);
        assert_eq!(table.get(0, d as usize), gw);
    }
}

#[test]
fn curve_class_addition_laws() {
    let a = CurveClass::new(vec![1, -2, 3]);
    let b = CurveClass::new(vec![4, 5, -6]);
    let c = CurveClass::new(vec![-7, 8, 9]);
    assert_eq!(a.add(&b).coefficients, b.add(&a).coefficients);
    assert_eq!(a.add(&b).add(&c).coefficients, a.add(&b.add(&c)).coefficients);
    assert_eq!(a.add(&CurveClass::zero(3)).coefficients, a.coefficients);
    assert!(a.add(&b).degree() <= a.degree() + b.degree());
    assert_eq!(a.add(&b).degree(), 5 + 3 + 3);
}

#[test]
fn curve_class_scaling_laws() {
    let a = CurveClass::new(vec![1, -2, 3]);
    assert_eq!(a.scale(-4).degree(), 4 * a.degree());
    assert_eq!(a.scale(1).coefficients, a.coefficients);
    assert_eq!(
        a.add(&CurveClass::new(vec![1, 1, 1])).scale(2).coefficients,
        a.scale(2).add(&CurveClass::new(vec![2, 2, 2])).coefficients
    );
    assert!(CurveClass::new(vec![0, 0]).degree() == 0);
    assert!(CurveClass::new(vec![0, 0]).is_zero());
}

#[test]
fn table_reads_back_what_was_stored() {
    let mut t = GWTable::new("X", 3, 3);
    t.set(2, 1, -5);
    t.set(0, 3, 9);
    assert_eq!(t.get(2, 1), Some(-5));
    assert_eq!(t.get(0, 3), Some(9));
    assert_eq!(t.get(1, 1), None);
    t.set(2, 1, 6);
    assert_eq!(t.get(2, 1), Some(6));
    assert_eq!(t.get(0, 3), Some(9));
}

#[test]
fn monodromy_determinant_is_one() {
    for order in 1usize..10 {
        assert_eq!(unipotent_monodromy_determinant(order), 1);
    }
}

#[test]
fn cy_dualities_are_full() {
    for (h11, h21) in [(1u64, 101u64), (3, 7), (0, 0), (12, 5)] {
        let d = AgentDuality::cy_duality("A", "B", h11, h21);
        assert!(d.verify_full_duality());
        assert_eq!(
            d.architecture_a.euler_characteristic(),
            -d.architecture_b.euler_characteristic()
        );
    }
}
