use lau_mirror_symmetry::agent_duality::AgentArchitecture;
use lau_mirror_symmetry::AgentDuality;

#[test]
fn test_agent_euler() {
    let a = AgentArchitecture::new(
        "Test",
        vec![vec![1, 0, 0, 1], vec![0, 5, 10, 0], vec![0, 10, 5, 0], vec![1, 0, 0, 1]],
    );
    let chi = a.euler_characteristic();
    // sum over all (p,q) of (-1)^{p+q} * h^{p,q}
    // = 1 -0-0+1 -0+5+10-0 -0-10-5+0 +1-0-0+1 = -10
    assert_eq!(chi, -10);
}

#[test]
fn test_cy_duality() {
    let d = AgentDuality::cy_duality("A", "B", 3, 7);
    assert_eq!(d.architecture_a.name, "A");
    assert_eq!(d.architecture_b.name, "B");
}

#[test]
fn test_quintic_duality_invariants() {
    let d = AgentDuality::quintic();
    assert!(d.verify_invariant_match());
}

#[test]
fn test_quintic_duality_capability_mirror() {
    let d = AgentDuality::quintic();
    assert!(d.verify_capability_mirror());
}

#[test]
fn test_quintic_duality_full() {
    let d = AgentDuality::quintic();
    assert!(d.verify_full_duality());
}

#[test]
fn test_custom_duality_euler_opposite() {
    let d = AgentDuality::cy_duality("X", "Y", 5, 20);
    let chi_a = d.architecture_a.euler_characteristic();
    let chi_b = d.architecture_b.euler_characteristic();
    assert_eq!(chi_a, -chi_b);
}

#[test]
fn test_agent_serialization() {
    let a = AgentArchitecture::new("Test", vec![vec![1]]);
    let _serialized = format!("{}", a.name);
    assert_eq!(a.name, "Test");
}

#[test]
fn ragged_capabilities_euler() {
    let a = AgentArchitecture::new("Ragged", vec![vec![3], vec![1, 4, 1], vec![]]);
    // +3, -1 +4 -1
    assert_eq!(a.euler_characteristic(), 5);
}

#[test]
fn capability_mirror_edge_cases() {
    let a = AgentArchitecture::new("A", vec![vec![1], vec![2]]);
    let b = AgentArchitecture::new("B", vec![vec![1]]);
    let d = AgentDuality::new(a, b);
    assert!(!d.verify_capability_mirror());
    assert!(!d.verify_full_duality());
    let small = AgentDuality::new(
        AgentArchitecture::new("A", vec![vec![1, 2], vec![3, 4]]),
        AgentArchitecture::new("B", vec![vec![1, 2], vec![3, 4]]),
    );
    assert!(small.verify_capability_mirror());
    let swapped_wrong = AgentDuality::cy_duality("A", "B", 3, 7);
    let not_mirror = AgentDuality::new(
        AgentArchitecture::new("A", swapped_wrong.architecture_a.capabilities.clone()),
        AgentArchitecture::new("B", swapped_wrong.architecture_a.capabilities.clone()),
    );
    assert!(!not_mirror.verify_capability_mirror());
    assert!(!not_mirror.verify_invariant_match());
}

#[test]
fn cy_duality_tables() {
    let d = AgentDuality::cy_duality("A", "B", 3, 7);
    assert_eq!(d.architecture_a.capabilities[1], vec![0, 3, 7, 0]);
    assert_eq!(d.architecture_b.capabilities[1], vec![0, 7, 3, 0]);
    assert_eq!(d.architecture_a.euler_characteristic(), -8);
    assert!(d.verify_full_duality());
}
