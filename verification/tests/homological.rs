use lau_mirror_symmetry::{DerivedCategory, FukayaCategory, HMSDuality};

#[test]
fn test_fukaya_category_creation() {
    let mut fuk = FukayaCategory::new("T²");
    let id = fuk.add_lagrangian("L₀", vec![1, 0], 0);
    assert_eq!(id, 0);
    assert_eq!(fuk.num_objects(), 1);
}

#[test]
fn test_derived_category_creation() {
    let mut der = DerivedCategory::new("T²");
    let id = der.add_sheaf("O", vec![1, 0], 1);
    assert_eq!(id, 0);
    assert_eq!(der.num_objects(), 1);
}

#[test]
fn test_hms_quintic() {
    let hms = HMSDuality::quintic();
    assert_eq!(hms.symplectic_manifold, "Quintic");
    assert_eq!(hms.complex_manifold, "Mirror Quintic");
    assert!(hms.verify_euler_match());
    assert!(hms.verify_bijection());
}

#[test]
fn test_floer_cohomology_self() {
    let mut fuk = FukayaCategory::new("CY3");
    fuk.add_lagrangian("L", vec![1], 0);
    assert_eq!(fuk.floer_cohomology(0, 0), 1);
}

#[test]
fn test_ext_groups_self() {
    let mut der = DerivedCategory::new("CY3");
    der.add_sheaf("O", vec![1], 1);
    let ext = der.ext_groups(0, 0);
    assert_eq!(ext[0], 1); // Hom
}

#[test]
fn test_projective_space_collection() {
    let mut der = DerivedCategory::new("P⁴");
    der.add_projective_space_collection(4);
    assert_eq!(der.num_objects(), 5);
}

#[test]
fn test_hms_num_matched() {
    let hms = HMSDuality::quintic();
    assert!(hms.num_matched_objects() > 0);
}

#[test]
fn lagrangians_get_consecutive_ids() {
    let mut fuk = FukayaCategory::new("X");
    assert_eq!(fuk.add_lagrangian("A", vec![1], 0), 0);
    assert_eq!(fuk.add_lagrangian("B", vec![2, 3], -1), 1);
    assert_eq!(fuk.objects[1].name, "B");
    assert_eq!(fuk.objects[1].homology_class, vec![2, 3]);
    assert_eq!(fuk.objects[1].maslov_index, -1);
    assert!(!fuk.objects[1].wrapped);
    assert_eq!(fuk.floer_cohomology(0, 1), 0);
}

#[test]
fn ext_groups_of_distinct_objects_vanish() {
    let der = DerivedCategory::new("X");
    assert_eq!(der.ext_groups(0, 1), vec![0, 0, 0, 0]);
    assert_eq!(der.ext_groups(2, 2), vec![1, 0, 0, 1]);
}

#[test]
fn projective_collection_names_and_charges() {
    let mut der = DerivedCategory::new("P²");
    der.add_sheaf("E", vec![7], 3);
    der.add_projective_space_collection(2);
    assert_eq!(der.num_objects(), 4);
    let names: Vec<&str> = der.objects.iter().map(|s| s.name.as_str()).collect();
    assert_eq!(names, vec!["E", "O(0)", "O(1)", "O(2)"]);
    assert_eq!(der.objects[3].chern_character, vec![1, 2]);
    assert_eq!(der.objects[3].id, 3);
    assert_eq!(der.objects[3].rank, 1);
}

#[test]
fn hms_checks_detect_bad_correspondences() {
    let mut hms = HMSDuality::quintic();
    hms.correspondence.push((0, 1));
    assert!(hms.verify_euler_match());
    assert!(!hms.verify_bijection());
    hms.correspondence = vec![(0, 0), (1, 1)];
    assert!(!hms.verify_euler_match());
    assert!(hms.verify_bijection());
    hms.correspondence = vec![(0, 0), (2, 0)];
    assert!(!hms.verify_bijection());
    hms.correspondence = vec![];
    assert!(hms.verify_euler_match());
    assert!(hms.verify_bijection());
    assert_eq!(hms.num_matched_objects(), 0);
}
