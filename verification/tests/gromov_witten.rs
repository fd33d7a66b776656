use lau_mirror_symmetry::gromov_witten::GWTable;
use lau_mirror_symmetry::{CurveClass, GromovWittenInvariant};

#[test]
fn test_curve_class_zero() {
    let z = CurveClass::zero(3);
    assert!(z.is_zero());
    assert_eq!(z.degree(), 0);
}

#[test]
fn test_curve_class_addition() {
    let a = CurveClass::new(vec![1, 2, 3]);
    let b = CurveClass::new(vec![4, 5, 6]);
    let c = a.add(&b);
    assert_eq!(c.coefficients, vec![5, 7, 9]);
}

#[test]
fn test_curve_class_scale() {
    let a = CurveClass::new(vec![1, -2, 3]);
    let b = a.scale(3);
    assert_eq!(b.coefficients, vec![3, -6, 9]);
}

#[test]
fn test_quintic_gw_invariants() {
    let n1 = GromovWittenInvariant::quintic_genus_zero(1).unwrap();
    assert_eq!(n1.value, 2875);
    assert_eq!(n1.genus, 0);

    let n2 = GromovWittenInvariant::quintic_genus_zero(2).unwrap();
    assert_eq!(n2.value, 609250);

    let n3 = GromovWittenInvariant::quintic_genus_zero(3).unwrap();
    assert_eq!(n3.value, 317206375);
}

#[test]
fn test_gw_table_quintic() {
    let t = GWTable::quintic_table();
    assert_eq!(t.get(0, 1), Some(2875));
    assert_eq!(t.get(0, 2), Some(609250));
    assert_eq!(t.get(0, 3), Some(317206375));
}

#[test]
fn test_gw_table_wdvv() {
    let t = GWTable::quintic_table();
    assert!(t.verify_wdvv());
}

#[test]
fn test_genus_zero_invariant() {
    let inv = GromovWittenInvariant::new(0, CurveClass::new(vec![1]), 2875);
    assert_eq!(inv.genus, 0);
    assert_eq!(inv.beta.coefficients, vec![1]);
}

#[test]
fn test_multiple_cover_formula() {
    let primitive = GromovWittenInvariant::new(0, CurveClass::new(vec![1]), 2875 * 8);
    let d2 = GromovWittenInvariant::multiple_cover_formula(&primitive, 2);
    assert_eq!(d2.beta.coefficients, vec![2]);
    // d^{-3} * 2875*8 = 1/8 * 23000 = 2875
    assert_eq!(d2.value, 2875);
}

#[test]
fn multiple_cover_rounds_toward_zero() {
    let p = GromovWittenInvariant::new(1, CurveClass::new(vec![1, -1]), -17);
    let c = GromovWittenInvariant::multiple_cover_formula(&p, 2);
    // genus 1: d^{-1} * (-17) = -8.5, rounded toward zero
    assert_eq!(c.value, -8);
    assert_eq!(c.genus, 1);
    assert_eq!(c.beta.coefficients, vec![2, -2]);
    let one = GromovWittenInvariant::multiple_cover_formula(&p, 1);
    assert_eq!(one.value, -17);
    assert_eq!(one.beta.coefficients, vec![1, -1]);
}

#[test]
fn multiple_cover_genus_one_divides_by_degree() {
    let p = GromovWittenInvariant::new(1, CurveClass::new(vec![1]), 8);
    let c = GromovWittenInvariant::multiple_cover_formula(&p, 2);
    assert_eq!(c.value, 4);
    assert_eq!(c.beta.coefficients, vec![2]);
}

#[test]
fn multiple_cover_higher_genus_multiplies() {
    // genus 2: d^{1}
    let p2 = GromovWittenInvariant::new(2, CurveClass::new(vec![1]), 5);
    let c2 = GromovWittenInvariant::multiple_cover_formula(&p2, 3);
    assert_eq!(c2.value, 15);
    assert_eq!(c2.genus, 2);
    assert_eq!(c2.beta.coefficients, vec![3]);
    // genus 3: d^{3}
    let p3 = GromovWittenInvariant::new(3, CurveClass::new(vec![1]), 5);
    let c3 = GromovWittenInvariant::multiple_cover_formula(&p3, 2);
    assert_eq!(c3.value, 40);
    // d = 1 leaves the value alone in every genus
    let same = GromovWittenInvariant::multiple_cover_formula(&p3, 1);
    assert_eq!(same.value, 5);
}

#[test]
fn quintic_genus_zero_degrees() {
    let n0 = GromovWittenInvariant::quintic_genus_zero(0).unwrap();
    assert_eq!(n0.value, 1);
    assert_eq!(n0.beta.coefficients, vec![0]);
    assert_eq!(
        GromovWittenInvariant::quintic_genus_zero(3).unwrap().beta.coefficients,
        vec![3]
    );
    assert!(GromovWittenInvariant::quintic_genus_zero(4).is_none());
}

#[test]
fn curve_class_addition_uses_common_length() {
    let a = CurveClass::new(vec![1, 2, 3]);
    let b = CurveClass::new(vec![10]);
    assert_eq!(a.add(&b).coefficients, vec![11]);
    assert_eq!(b.add(&a).coefficients, vec![11]);
}

#[test]
fn curve_class_degree_and_zero() {
    let a = CurveClass::new(vec![1, -2, 3]);
    assert_eq!(a.degree(), 6);
    assert!(!a.is_zero());
    assert_eq!(a.scale(-2).degree(), 12);
    assert!(a.scale(0).is_zero());
    let z = CurveClass::zero(0);
    assert!(z.is_zero());
    assert_eq!(z.coefficients, Vec::<i64>::new());
}

#[test]
fn gw_table_set_and_get() {
    let mut t = GWTable::new("Other", 2, 2);
    assert_eq!(t.table, vec![vec![None; 3]; 3]);
    assert_eq!(t.get(1, 1), None);
    t.set(1, 1, 42);
    assert_eq!(t.get(1, 1), Some(42));
    t.set(5, 0, 7);
    assert_eq!(t.get(5, 0), None);
    assert_eq!(t.get(0, 3), None);
    assert!(t.verify_wdvv());
}

#[test]
fn quintic_table_layout() {
    let t = GWTable::quintic_table();
    assert_eq!(t.manifold, "Quintic");
    assert_eq!(
        t.table,
        vec![
            vec![Some(1), Some(2875), Some(609250), Some(317206375)],
            vec![Some(0), Some(0), None, None],
        ]
    );
    assert_eq!(t.get(2, 0), None);
}

#[test]
fn wdvv_fails_on_wrong_quintic_data() {
    let mut t = GWTable::quintic_table();
    t.set(0, 1, 2876);
    assert!(!t.verify_wdvv());
    let empty = GWTable::new("Quintic", 0, 0);
    assert!(!empty.verify_wdvv());
}
