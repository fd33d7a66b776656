use lau_mirror_symmetry::CalabiYauManifold;

#[test]
fn test_quintic_hodge_numbers() {
    let q = CalabiYauManifold::quintic();
    assert_eq!(q.hodge(1, 1), Some(1));
    assert_eq!(q.hodge(2, 1), Some(101));
    assert_eq!(q.euler_characteristic, -200);
}

#[test]
fn test_mirror_quintic() {
    let mq = CalabiYauManifold::mirror_quintic();
    assert_eq!(mq.hodge(1, 1), Some(101));
    assert_eq!(mq.hodge(2, 1), Some(1));
    assert_eq!(mq.euler_characteristic, 200);
}

#[test]
fn test_quintic_mirror_swap() {
    let q = CalabiYauManifold::quintic();
    let mq = q.mirror().unwrap();
    assert_eq!(q.hodge(1, 1), mq.hodge(2, 1));
    assert_eq!(q.hodge(2, 1), mq.hodge(1, 1));
    assert_eq!(q.euler_characteristic, -mq.euler_characteristic);
}

#[test]
fn test_quintic_calabi_yau_conditions() {
    let q = CalabiYauManifold::quintic();
    assert!(q.verify_calabi_yau());
    assert!(q.verify_su_n_holonomy());
    assert!(q.verify_ricci_flat());
}

#[test]
fn test_serre_duality_quintic() {
    let q = CalabiYauManifold::quintic();
    assert!(q.verify_serre_duality());
}

#[test]
fn test_conjugation_symmetry_quintic() {
    let q = CalabiYauManifold::quintic();
    assert!(q.verify_conjugation_symmetry());
}

#[test]
fn test_k3_surface() {
    let k3 = CalabiYauManifold::k3_surface();
    assert_eq!(k3.complex_dim, 2);
    assert_eq!(k3.euler_characteristic, 24);
    assert_eq!(k3.hodge(1, 1), Some(20));
    assert!(k3.verify_calabi_yau());
}

#[test]
fn test_elliptic_curve() {
    let ec = CalabiYauManifold::elliptic_curve();
    assert_eq!(ec.complex_dim, 1);
    assert_eq!(ec.euler_characteristic, 0);
    assert!(ec.verify_calabi_yau());
    assert!(ec.verify_serre_duality());
}

#[test]
fn test_mirror_euler_sign_flip() {
    // For CY 3-folds, mirror flips sign of Euler characteristic
    let cy = CalabiYauManifold::cy3(5, 20, "Test");
    let m = cy.mirror().unwrap();
    assert_eq!(cy.euler_characteristic, -30);
    assert_eq!(m.euler_characteristic, 30);
}

#[test]
fn test_k3_self_mirror() {
    // K3 surface is its own mirror in dimension 2
    let k3 = CalabiYauManifold::k3_surface();
    assert!(k3.verify_serre_duality());
    assert!(k3.verify_conjugation_symmetry());
}

#[test]
fn test_custom_cy3() {
    let cy = CalabiYauManifold::cy3(3, 7, "Custom");
    assert_eq!(cy.h11_h21(), Some((3, 7)));
    assert_eq!(cy.euler_characteristic, -8);
    assert!(cy.verify_calabi_yau());
}

#[test]
fn cy3_names_and_table() {
    let cy = CalabiYauManifold::cy3(4, 9, "Nine");
    assert_eq!(cy.name, "Nine");
    assert_eq!(cy.complex_dim, 3);
    assert!(cy.strict_holonomy_su_n);
    assert_eq!(
        cy.hodge_numbers,
        vec![vec![1, 0, 0, 1], vec![0, 4, 9, 0], vec![0, 9, 4, 0], vec![1, 0, 0, 1]]
    );
}

#[test]
fn mirror_name_wraps_name() {
    let q = CalabiYauManifold::quintic();
    let m = q.mirror().unwrap();
    assert_eq!(m.name, "Mirror(Quintic)");
    let mm = m.mirror().unwrap();
    assert_eq!(mm.name, "Mirror(Mirror(Quintic))");
    assert_eq!(mm.hodge_numbers, q.hodge_numbers);
    assert_eq!(mm.euler_characteristic, q.euler_characteristic);
}

#[test]
fn mirror_of_non_threefold_is_none() {
    let k3 = CalabiYauManifold::k3_surface();
    assert!(k3.mirror().is_none());
    assert_eq!(k3.h11_h21(), None);
    let ec = CalabiYauManifold::elliptic_curve();
    assert!(ec.mirror().is_none());
}

#[test]
fn hodge_out_of_range_is_none() {
    let q = CalabiYauManifold::quintic();
    assert_eq!(q.hodge(4, 0), None);
    assert_eq!(q.hodge(0, 4), None);
    assert_eq!(q.hodge(3, 3), Some(1));
}

#[test]
fn middle_cohomology_dimensions() {
    // b_3 = h^{3,0} + h^{2,1} + h^{1,2} + h^{0,3} = 1 + 101 + 101 + 1
    assert_eq!(CalabiYauManifold::quintic().middle_cohomology_dimension(), 204);
    // b_2 = 1 + 20 + 1
    assert_eq!(CalabiYauManifold::k3_surface().middle_cohomology_dimension(), 22);
    // b_1 = 1 + 1
    assert_eq!(CalabiYauManifold::elliptic_curve().middle_cohomology_dimension(), 2);
    // b_3 of a CY 3-fold is 2 + 2 h^{2,1}
    assert_eq!(CalabiYauManifold::cy3(2, 3, "X").middle_cohomology_dimension(), 8);
}

#[test]
fn broken_tables_fail_the_checks() {
    let mut cy = CalabiYauManifold::cy3(2, 3, "Broken");
    cy.hodge_numbers[1][0] = 5;
    assert!(!cy.verify_kahler_condition());
    assert!(!cy.verify_su_n_holonomy());
    assert!(!cy.verify_calabi_yau());
    assert!(!cy.verify_serre_duality());
    assert!(!cy.verify_conjugation_symmetry());
    assert!(cy.verify_ricci_flat());

    let mut no_volume = CalabiYauManifold::cy3(2, 3, "NoVolume");
    no_volume.hodge_numbers[3][0] = 0;
    assert!(!no_volume.verify_vanishing_first_chern_class());
    assert!(!no_volume.verify_calabi_yau());

    let mut short = CalabiYauManifold::cy3(2, 3, "Short");
    short.hodge_numbers.pop();
    assert!(!short.verify_vanishing_first_chern_class());
}

#[test]
fn clone_keeps_every_field() {
    let q = CalabiYauManifold::cy3(11, 12, "Twelve");
    let c = q.clone();
    assert_eq!(c.name, q.name);
    assert_eq!(c.hodge_numbers, q.hodge_numbers);
    assert_eq!(c.euler_characteristic, q.euler_characteristic);
    assert_eq!(c.complex_dim, q.complex_dim);
}
