use lau_mirror_symmetry::{HodgeDiamond, HodgeNumber};

#[test]
fn test_cy3_diamond_symmetries() {
    let d = HodgeDiamond::cy3(1, 101);
    assert!(d.verify_conjugation());
    assert!(d.verify_serre_duality());
    assert!(d.verify_hard_lefschetz());
}

#[test]
fn test_mirror_diamond_swap() {
    let d = HodgeDiamond::cy3(5, 10);
    let m = d.mirror().unwrap();
    assert_eq!(d.get(1, 1), m.get(2, 1));
    assert_eq!(d.get(2, 1), m.get(1, 1));
}

#[test]
fn test_euler_from_diamond() {
    let d = HodgeDiamond::cy3(1, 101);
    assert_eq!(d.euler_characteristic(), -200);
    let d2 = HodgeDiamond::cy3(101, 1);
    assert_eq!(d2.euler_characteristic(), 200);
}

#[test]
fn test_double_mirror_is_identity() {
    let d = HodgeDiamond::cy3(7, 13);
    let dm = d.mirror().unwrap().mirror().unwrap();
    assert_eq!(d.get(1, 1), dm.get(1, 1));
    assert_eq!(d.get(2, 1), dm.get(2, 1));
}

#[test]
fn test_display_diamond() {
    let d = HodgeDiamond::cy3(1, 101);
    let s = d.display();
    assert!(s.contains("1"));
    assert!(s.contains("101"));
}

#[test]
fn display_exact_text() {
    let d = HodgeDiamond::cy3(1, 101);
    assert_eq!(
        d.display(),
        "   1\t0\t0\t1\n  0\t1\t101\t0\n 0\t101\t1\t0\n1\t0\t0\t1\n"
    );
    let small = HodgeDiamond::new(vec![vec![1, 1], vec![1, 1]]);
    assert_eq!(small.display(), " 1\t1\n1\t1\n");
}

#[test]
fn new_sets_dimension() {
    let d = HodgeDiamond::new(vec![vec![1, 0, 1], vec![0, 20, 0], vec![1, 0, 1]]);
    assert_eq!(d.dim, 2);
    assert_eq!(d.get(1, 1), 20);
    assert_eq!(d.get(5, 5), 0);
    assert_eq!(d.euler_characteristic(), 24);
    assert!(d.verify_hard_lefschetz());
    assert!(d.mirror().is_none());
}

#[test]
fn asymmetric_diamond_fails_checks() {
    let d = HodgeDiamond::new(vec![vec![1, 2], vec![0, 1]]);
    assert!(!d.verify_conjugation());
    assert!(!d.verify_serre_duality());
    // b_1 = 2 + 0 = 2 and b_1 pairs with itself, b_0 = 1 = b_2.
    assert!(d.verify_hard_lefschetz());
    let e = HodgeDiamond::new(vec![vec![1, 0], vec![0, 3]]);
    assert!(!e.verify_hard_lefschetz());
    assert_eq!(e.euler_characteristic(), 4);
}

#[test]
fn hodge_number_equality() {
    let a = HodgeNumber { p: 1, q: 1, value: 101 };
    let b = a;
    assert_eq!(a, b);
    assert_ne!(a, HodgeNumber { p: 2, q: 1, value: 101 });
}
