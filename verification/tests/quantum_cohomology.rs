use lau_mirror_symmetry::QuantumCohomologyRing;

#[test]
fn test_classical_ring_dimension() {
    let ring = QuantumCohomologyRing::projective_space(3);
    assert_eq!(ring.classical_dim, 4);
}

#[test]
fn test_quintic_ring_h11() {
    let ring = QuantumCohomologyRing::quintic();
    assert_eq!(ring.h11, 1);
}

#[test]
fn projective_space_names() {
    assert_eq!(QuantumCohomologyRing::projective_space(4).name, "P4");
    assert_eq!(QuantumCohomologyRing::projective_space(12).name, "P12");
    assert_eq!(QuantumCohomologyRing::projective_space(0).name, "P0");
    let ring = QuantumCohomologyRing::projective_space(12);
    assert_eq!(ring.h11, 1);
    assert!(ring.gw_table.is_none());
    assert_eq!(ring.q_expansion_order, 10);
}

#[test]
fn quintic_ring_carries_gw_table() {
    let ring = QuantumCohomologyRing::quintic();
    assert_eq!(ring.name, "Quintic");
    assert_eq!(ring.classical_dim, 4);
    let table = ring.gw_table.as_ref().unwrap();
    assert_eq!(table.get(0, 1), Some(2875));
    assert_eq!(ring.q_expansion_order, 10);
}

#[test]
fn new_ring_fields() {
    let ring = QuantumCohomologyRing::new("X", 3, 9);
    assert_eq!(ring.name, "X");
    assert_eq!(ring.h11, 3);
    assert_eq!(ring.classical_dim, 9);
    assert!(ring.gw_table.is_none());
}
