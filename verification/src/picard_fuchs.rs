//! Picard-Fuchs equations and monodromy.
//!
//! Picard-Fuchs equations are linear ODEs satisfied by the periods of a
//! family of Calabi-Yau manifolds. The monodromy of these equations around
//! singular loci encodes deep information about the mirror symmetry.
//!
//! The monodromy of a maximally unipotent equation around `z = 0` is an
//! integer matrix, computed here; the equations themselves, with their
//! floating-point indicial roots and period series, live with the
//! serializable copies of the types outside this library.

use vstd::prelude::*;

verus! {

/// Entry `(i, j)` of the Jordan block: 1 on the diagonal and the
/// superdiagonal, 0 elsewhere.
pub open spec fn jordan_entry(i: int, j: int) -> i64 {
    if j == i || j == i + 1 {
        1
    } else {
        0
    }
}

/// The matrix is the `order x order` Jordan block with eigenvalue 1.
pub open spec fn is_unipotent_jordan_block(m: Seq<Seq<i64>>, order: int) -> bool {
    &&& m.len() == order
    &&& forall|i: int| 0 <= i < order ==> (#[trigger] m[i]).len() == order
    &&& forall|i: int, j: int| 0 <= i < order && 0 <= j < order ==> #[trigger] m[i][j] == jordan_entry(i, j)
}

/// The product of the first `k` diagonal entries of `m`.
pub open spec fn diagonal_product(m: Seq<Seq<i64>>, k: int) -> int
    decreases k,
{
    if k <= 0 {
        1
    } else {
        diagonal_product(m, k - 1) * m[k - 1][k - 1]
    }
}

/// Compute the monodromy matrix around z=0 of a maximally unipotent
/// Picard-Fuchs equation of the given order: the matrix is upper-triangular
/// with 1s on the diagonal and the superdiagonal (Jordan block).
pub fn unipotent_monodromy(order: usize) -> (r: Vec<Vec<i64>>)
    requires
        order > 0,
    ensures
        is_unipotent_jordan_block(r@.map_values(|row: Vec<i64>| row@), order as int),
{
    let n = order;
    let mut m: Vec<Vec<i64>> = Vec::new();
    let mut i: usize = 0;
    while i < n
        invariant
            i <= n,
            m@.len() == i,
            forall|a: int| 0 <= a < i ==> (#[trigger] m@[a])@.len() == n,
            forall|a: int, b: int| 0 <= a < i && 0 <= b < n ==> #[trigger] m@[a]@[b] == jordan_entry(a, b),
        decreases n - i,
    {
        let mut row: Vec<i64> = Vec::new();
        let mut j: usize = 0;
        while j < n
            invariant
                i < n,
                j <= n,
                row@.len() == j,
                forall|b: int| 0 <= b < j ==> #[trigger] row@[b] == jordan_entry(i as int, b),
            decreases n - j,
        {
            if j == i || j == i + 1 {
                row.push(1);
            } else {
                row.push(0);
            }
            j += 1;
        }
        m.push(row);
        i += 1;
    }
    let ghost v = m@.map_values(|row: Vec<i64>| row@);
    assert forall|a: int| 0 <= a < n implies (#[trigger] v[a]).len() == n by {
        assert(v[a] == m@[a]@);
    }
    assert forall|a: int, b: int| 0 <= a < n && 0 <= b < n implies #[trigger] v[a][b]
        == jordan_entry(a, b) by {
        assert(v[a] == m@[a]@);
    }
    m
}

/// The determinant of the monodromy matrix around z=0 of a maximally
/// unipotent equation of the given order, as the product of the diagonal of
/// the (upper-triangular) matrix.
pub fn unipotent_monodromy_determinant(order: usize) -> (r: i64)
    requires
        order > 0,
    ensures
        r == diagonal_product(
            unipotent_monodromy_spec_matrix(order as int),
            order as int,
        ),
        r == 1,
{
    let m = unipotent_monodromy(order);
    let ghost v = m@.map_values(|row: Vec<i64>| row@);
    let mut det: i64 = 1;
    let mut i: usize = 0;
    while i < order
        invariant
            is_unipotent_jordan_block(v, order as int),
            v == m@.map_values(|row: Vec<i64>| row@),
            i <= order,
            det == 1,
            det == diagonal_product(v, i as int),
        decreases order - i,
    {
        assert(v[i as int] == m@[i as int]@);
        assert(v[i as int][i as int] == 1);
        det = det * m[i][i];
        i += 1;
    }
    proof {
        lemma_jordan_block_unique(v, order as int);
    }
    det
}

/// The `order x order` Jordan block with eigenvalue 1.
pub open spec fn unipotent_monodromy_spec_matrix(order: int) -> Seq<Seq<i64>> {
    Seq::new(order as nat, |i: int| Seq::new(order as nat, |j: int| jordan_entry(i, j)))
}

/// There is one Jordan block of each order.
pub proof fn lemma_jordan_block_unique(m: Seq<Seq<i64>>, order: int)
    requires
        order >= 0,
        is_unipotent_jordan_block(m, order),
    ensures
        m == unipotent_monodromy_spec_matrix(order),
{
    let s = unipotent_monodromy_spec_matrix(order);
    assert forall|i: int| 0 <= i < order implies m[i] == s[i] by {
        assert(m[i] =~= s[i]);
    }
    assert(m =~= s);
}

/// The monodromy of a maximally unipotent equation has determinant 1 in
/// every order: the product of the diagonal of the Jordan block is 1.
pub proof fn lemma_unipotent_determinant_is_one(order: int, k: int)
    requires
        0 <= k <= order,
    ensures
        diagonal_product(unipotent_monodromy_spec_matrix(order), k) == 1,
    decreases k,
{
    if k > 0 {
        lemma_unipotent_determinant_is_one(order, k - 1);
    }
}

} // verus!
