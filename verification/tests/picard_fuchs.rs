use lau_mirror_symmetry::picard_fuchs::{unipotent_monodromy, unipotent_monodromy_determinant};

#[test]
fn test_monodromy_matrix_jordan_block() {
    // The quintic's Picard-Fuchs equation has order 4.
    let m = unipotent_monodromy(4);
    assert_eq!(m[0][0], 1);
    assert_eq!(m[1][0], 0);
    assert_eq!(m[0][1], 1); // Superdiagonal
}

#[test]
fn test_monodromy_determinant() {
    assert_eq!(unipotent_monodromy_determinant(4), 1);
}

#[test]
fn jordan_block_exact() {
    assert_eq!(
        unipotent_monodromy(3),
        vec![vec![1, 1, 0], vec![0, 1, 1], vec![0, 0, 1]]
    );
    assert_eq!(unipotent_monodromy(1), vec![vec![1]]);
    assert_eq!(unipotent_monodromy_determinant(1), 1);
    assert_eq!(unipotent_monodromy_determinant(7), 1);
}
