//! Hodge diamonds: the fundamental combinatorial structure of mirror symmetry.

use vstd::prelude::*;
use vstd::string::StringExecFns;

use crate::calabi_yau::{
    cy3_euler, cy3_euler_fits, cy3_table, lemma_cy3_satisfies_conditions, CalabiYauManifold,
};
use crate::decimal::{decimal, push_decimal};
use crate::grid::{
    betti, betti_of, betti_symmetric, betti_term, conjugation_holds, conjugation_symmetric,
    entry_or_zero, entry_or_zero_of, euler_in_range, euler_prefix, euler_row, euler_rows,
    euler_term, euler_total, has_entry, lemma_serre_gives_betti_symmetry, serre_holds,
    serre_symmetric, sum_to, table_view,
};

verus! {

/// While no earlier pair differed, the Betti numbers `b_k` and `b_{2n-k}`
/// that the Hard Lefschetz check compares fit in a `u64`.
pub open spec fn lefschetz_in_range(g: Seq<Seq<u64>>, n: int) -> bool {
    forall|k: int|
        0 <= k <= 2 * n && (forall|j: int|
            0 <= j < k ==> #[trigger] betti(g, n, j) == betti(g, n, 2 * n - j)) ==> {
            &&& #[trigger] betti(g, n, k) <= u64::MAX
            &&& betti(g, n, 2 * n - k) <= u64::MAX
        }
}

/// `k` spaces.
pub open spec fn spaces(k: nat) -> Seq<char>
    decreases k,
{
    if k == 0 {
        Seq::empty()
    } else {
        spaces((k - 1) as nat) + seq![' ']
    }
}

/// The decimal notation of `h^{p,0}, ..., h^{p,m-1}`, separated by tabs.
pub open spec fn row_cells(g: Seq<Seq<u64>>, p: int, m: int) -> Seq<char>
    decreases m,
{
    if m <= 0 {
        Seq::empty()
    } else if m == 1 {
        decimal(entry_or_zero(g, p, 0) as nat)
    } else {
        row_cells(g, p, m - 1) + seq!['\t'] + decimal(entry_or_zero(g, p, m - 1) as nat)
    }
}

/// Line `p` of the printed diamond: `n - p` spaces, the row, a newline.
pub open spec fn diamond_line(g: Seq<Seq<u64>>, n: int, p: int) -> Seq<char> {
    spaces((n - p) as nat) + row_cells(g, p, n + 1) + seq!['\n']
}

/// The first `m` lines of the printed diamond.
pub open spec fn diamond_text(g: Seq<Seq<u64>>, n: int, m: int) -> Seq<char>
    decreases m,
{
    if m <= 0 {
        Seq::empty()
    } else {
        diamond_text(g, n, m - 1) + diamond_line(g, n, m - 1)
    }
}

/// A single Hodge number h^{p,q}.
#[derive(Debug, Clone, Copy, PartialEq, Eq, Structural)]
pub struct HodgeNumber {
    pub p: usize,
    pub q: usize,
    pub value: u64,
}

/// A complete Hodge diamond for a compact Kähler manifold of complex dimension n.
///
/// The Hodge diamond encodes the decomposition H^k(X, ℂ) = ⊕_{p+q=k} H^{p,q}(X)
/// and satisfies:
/// - **Complex conjugation**: h^{p,q} = h^{q,p}
/// - **Serre duality**: h^{p,q} = h^{n-p,n-q}
#[derive(Debug, Clone)]
pub struct HodgeDiamond {
    pub dim: usize,
    /// numbers[p][q] = h^{p,q}
    pub numbers: Vec<Vec<u64>>,
}

impl HodgeDiamond {
    /// The Hodge numbers, row `p` holding `h^{p,q}`.
    pub open spec fn table(&self) -> Seq<Seq<u64>> {
        table_view(&self.numbers)
    }

    /// Create a Hodge diamond from a raw matrix.
    pub fn new(numbers: Vec<Vec<u64>>) -> (r: Self)
        requires
            numbers@.len() > 0,
        ensures
            r.dim == numbers@.len() - 1,
            r.table() == table_view(&numbers),
    {
        let dim = numbers.len() - 1;
        Self { dim, numbers }
    }

    /// Create the Hodge diamond for a Calabi-Yau 3-fold with given (h^{1,1}, h^{2,1}).
    pub fn cy3(h11: u64, h21: u64) -> (r: Self)
        requires
            cy3_euler_fits(h11, h21),
        ensures
            r.dim == 3,
            r.table() == cy3_table(h11, h21),
    {
        let cy = CalabiYauManifold::cy3(h11, h21, "");
        Self { dim: 3, numbers: cy.hodge_numbers }
    }

    /// Get h^{p,q}.
    pub fn get(&self, p: usize, q: usize) -> (r: u64)
        ensures
            r == entry_or_zero(self.table(), p as int, q as int),
    {
        entry_or_zero_of(&self.numbers, p, q)
    }

    /// Verify complex conjugation symmetry: h^{p,q} = h^{q,p}.
    pub fn verify_conjugation(&self) -> (r: bool)
        ensures
            r == conjugation_symmetric(self.table(), self.dim as int),
    {
        conjugation_holds(&self.numbers, self.dim)
    }

    /// Verify Serre duality: h^{p,q} = h^{n-p,n-q}.
    pub fn verify_serre_duality(&self) -> (r: bool)
        ensures
            r == serre_symmetric(self.table(), self.dim as int),
    {
        serre_holds(&self.numbers, self.dim)
    }

    /// Verify the Hard Lefschetz theorem: the map L^{n-k}: H^k → H^{2n-k} is an
    /// isomorphism, checked on the Betti numbers b_k = Σ_{p+q=k} h^{p,q}:
    /// b_k = b_{2n-k} for 0 <= k <= 2n.
    pub fn verify_hard_lefschetz(&self) -> (r: bool)
        requires
            2 * self.dim <= usize::MAX,
            lefschetz_in_range(self.table(), self.dim as int),
        ensures
            r == betti_symmetric(self.table(), self.dim as int),
    {
        let n = self.dim;
        let ghost g = self.table();
        let top = 2 * n;
        let mut k: u128 = 0;
        while k <= top as u128
            invariant
                g == self.table(),
                n == self.dim,
                top == 2 * n,
                lefschetz_in_range(g, n as int),
                k <= top as u128 + 1,
                forall|j: int| 0 <= j < k ==> #[trigger] betti(g, n as int, j) == betti(
                    g,
                    n as int,
                    2 * n - j,
                ),
            decreases top as u128 + 1 - k,
        {
            let ku = k as usize;
            assert(betti(g, n as int, ku as int) <= u64::MAX);
            let bk = betti_of(&self.numbers, n, ku);
            let bk_mirror = betti_of(&self.numbers, n, top - ku);
            if bk != bk_mirror {
                return false;
            }
            k += 1;
        }
        true
    }

    /// Compute the mirror Hodge diamond (swap h^{p,q} ↔ h^{n-p,q} for CY).
    /// For CY 3-folds, this is the swap h^{1,1} ↔ h^{2,1}.
    pub fn mirror(&self) -> (r: Option<Self>)
        requires
            self.dim == 3 ==> cy3_euler_fits(
                entry_or_zero(self.table(), 2, 1),
                entry_or_zero(self.table(), 1, 1),
            ),
        ensures
            r is Some <==> self.dim == 3,
            r matches Some(m) ==> {
                &&& m.dim == 3
                &&& m.table() == cy3_table(
                    entry_or_zero(self.table(), 2, 1),
                    entry_or_zero(self.table(), 1, 1),
                )
            },
    {
        if self.dim != 3 {
            return None;
        }
        let h11 = self.get(1, 1);
        let h21 = self.get(2, 1);
        Some(Self::cy3(h21, h11))
    }

    /// Euler characteristic from Hodge diamond: χ = Σ (-1)^{p+q} h^{p,q}.
    pub fn euler_characteristic(&self) -> (r: i64)
        requires
            2 * self.dim <= usize::MAX,
            euler_in_range(self.table(), self.dim as int),
        ensures
            r == euler_total(self.table(), self.dim as int),
    {
        let n = self.dim;
        let ghost g = self.table();
        let mut chi: i64 = 0;
        let mut p: u128 = 0;
        while p <= n as u128
            invariant
                g == self.table(),
                n == self.dim,
                2 * n <= usize::MAX,
                euler_in_range(g, n as int),
                p <= n as u128 + 1,
                chi == euler_rows(g, n as int, p as int),
            decreases n as u128 + 1 - p,
        {
            let pu = p as usize;
            let mut q: u128 = 0;
            while q <= n as u128
                invariant
                    g == self.table(),
                    n == self.dim,
                    2 * n <= usize::MAX,
                    euler_in_range(g, n as int),
                    p <= n as u128,
                    pu == p,
                    q <= n as u128 + 1,
                    chi == euler_rows(g, n as int, p as int) + euler_row(g, p as int, q as int),
                decreases n as u128 + 1 - q,
            {
                let qu = q as usize;
                let v = self.get(pu, qu) as i64;
                proof {
                    assert(i64::MIN <= euler_prefix(g, n as int, p as int, q as int) <= i64::MAX);
                    assert(euler_row(g, p as int, q as int + 1) == euler_row(g, p as int, q as int)
                        + euler_term(g, p as int, q as int));
                }
                let term = if (pu + qu) % 2 == 0 {
                    v
                } else {
                    -v
                };
                chi = chi + term;
                q += 1;
            }
            proof {
                assert(euler_rows(g, n as int, p as int + 1) == euler_rows(g, n as int, p as int)
                    + euler_row(g, p as int, n + 1));
            }
            p += 1;
        }
        chi
    }

    /// Format the Hodge diamond as a string: row p is indented by n - p spaces
    /// and lists h^{p,0}, ..., h^{p,n} separated by tabs.
    pub fn display(&self) -> (r: String)
        ensures
            r@ == diamond_text(self.table(), self.dim as int, self.dim + 1),
    {
        proof {
            reveal_strlit(" ");
            reveal_strlit("\t");
            reveal_strlit("\n");
        }
        let n = self.dim;
        let ghost g = self.table();
        let mut s = String::new();
        let mut p: u128 = 0;
        while p <= n as u128
            invariant
                g == self.table(),
                n == self.dim,
                p <= n as u128 + 1,
                s@ == diamond_text(g, n as int, p as int),
                " "@ == seq![' '],
                "\t"@ == seq!['\t'],
                "\n"@ == seq!['\n'],
            decreases n as u128 + 1 - p,
        {
            let pu = p as usize;
            let ghost before = s@;
            let mut i: usize = 0;
            while i < n - pu
                invariant
                    pu <= n,
                    i <= n - pu,
                    s@ == before + spaces(i as nat),
                    " "@ == seq![' '],
                decreases n - pu - i,
            {
                s.append(" ");
                i += 1;
            }
            let ghost indented = s@;
            let mut q: u128 = 0;
            while q <= n as u128
                invariant
                    g == self.table(),
                    n == self.dim,
                    pu == p,
                    q <= n as u128 + 1,
                    s@ == indented + row_cells(g, p as int, q as int),
                    "\t"@ == seq!['\t'],
                decreases n as u128 + 1 - q,
            {
                let qu = q as usize;
                if qu > 0 {
                    s.append("\t");
                }
                push_decimal(&mut s, self.get(pu, qu));
                q += 1;
            }
            s.append("\n");
            assert(s@ =~= diamond_text(g, n as int, p as int + 1));
            p += 1;
        }
        s
    }
}

/// The Hodge diamond of every Calabi-Yau threefold has complex conjugation
/// symmetry, Serre duality and the Hard Lefschetz symmetry of its Betti numbers.
pub proof fn lemma_cy3_diamond_symmetries(h11: u64, h21: u64)
    ensures
        conjugation_symmetric(cy3_table(h11, h21), 3),
        serre_symmetric(cy3_table(h11, h21), 3),
        betti_symmetric(cy3_table(h11, h21), 3),
{
    lemma_cy3_satisfies_conditions(h11, h21);
    lemma_serre_gives_betti_symmetry(cy3_table(h11, h21), 3);
}

/// The contributions of the four rows of the Hodge diamond of a Calabi-Yau
/// threefold to its Euler characteristic: `0`, `h^{1,1} - h^{2,1}` twice, `0`.
pub proof fn lemma_cy3_euler_rows(h11: u64, h21: u64)
    ensures
        euler_row(cy3_table(h11, h21), 0, 4) == 0,
        euler_row(cy3_table(h11, h21), 1, 4) == (h11 as i64) as int - (h21 as i64) as int,
        euler_row(cy3_table(h11, h21), 2, 4) == (h11 as i64) as int - (h21 as i64) as int,
        euler_row(cy3_table(h11, h21), 3, 4) == 0,
{
    let g = cy3_table(h11, h21);
    let a = (h11 as i64) as int;
    let b = (h21 as i64) as int;
    lemma_cy3_euler_terms(h11, h21);
    assert(euler_row(g, 0, 4) == 0) by {
        lemma_cy3_table_entries(h11, h21);
        lemma_euler_row_of_four(g, 0);
        assert(euler_term(g, 0, 0) == 1);
        assert(euler_term(g, 0, 1) == 0);
        assert(euler_term(g, 0, 2) == 0);
        assert(euler_term(g, 0, 3) == -1);
    }
    assert(euler_row(g, 1, 4) == a - b) by {
        lemma_cy3_table_entries(h11, h21);
        lemma_euler_row_of_four(g, 1);
        assert(euler_term(g, 1, 0) == 0);
        assert(euler_term(g, 1, 1) == a);
        assert(euler_term(g, 1, 2) == -b);
        assert(euler_term(g, 1, 3) == 0);
    }
    assert(euler_row(g, 2, 4) == a - b) by {
        lemma_cy3_table_entries(h11, h21);
        lemma_euler_row_of_four(g, 2);
        assert(euler_term(g, 2, 0) == 0);
        assert(euler_term(g, 2, 1) == -b);
        assert(euler_term(g, 2, 2) == a);
        assert(euler_term(g, 2, 3) == 0);
    }
    assert(euler_row(g, 3, 4) == 0) by {
        lemma_cy3_table_entries(h11, h21);
        lemma_euler_row_of_four(g, 3);
        assert(euler_term(g, 3, 0) == -1);
        assert(euler_term(g, 3, 1) == 0);
        assert(euler_term(g, 3, 2) == 0);
        assert(euler_term(g, 3, 3) == 1);
    }
}

/// The Euler characteristic read off the Hodge diamond of a Calabi-Yau
/// threefold, `Σ (-1)^{p+q} h^{p,q}`, is `2 (h^{1,1} - h^{2,1})`, the Euler
/// characteristic that `CalabiYauManifold::cy3` records.
pub proof fn lemma_cy3_diamond_euler(h11: u64, h21: u64)
    ensures
        euler_total(cy3_table(h11, h21), 3) == cy3_euler(h11, h21),
{
    let g = cy3_table(h11, h21);
    lemma_cy3_euler_rows(h11, h21);
    assert(euler_rows(g, 3, 0) == 0);
    assert(euler_rows(g, 3, 1) == euler_rows(g, 3, 0) + euler_row(g, 0, 4));
    assert(euler_rows(g, 3, 2) == euler_rows(g, 3, 1) + euler_row(g, 1, 4));
    assert(euler_rows(g, 3, 3) == euler_rows(g, 3, 2) + euler_row(g, 2, 4));
    assert(euler_rows(g, 3, 4) == euler_rows(g, 3, 3) + euler_row(g, 3, 4));
}

/// The entries of the Hodge diamond of a Calabi-Yau threefold.
proof fn lemma_cy3_table_entries(h11: u64, h21: u64)
    ensures
        forall|p: int, q: int| 0 <= p <= 3 && 0 <= q <= 3 ==> has_entry(cy3_table(h11, h21), p, q),
        entry_or_zero(cy3_table(h11, h21), 0, 0) == 1,
        entry_or_zero(cy3_table(h11, h21), 0, 1) == 0,
        entry_or_zero(cy3_table(h11, h21), 0, 2) == 0,
        entry_or_zero(cy3_table(h11, h21), 0, 3) == 1,
        entry_or_zero(cy3_table(h11, h21), 1, 0) == 0,
        entry_or_zero(cy3_table(h11, h21), 1, 1) == h11,
        entry_or_zero(cy3_table(h11, h21), 1, 2) == h21,
        entry_or_zero(cy3_table(h11, h21), 1, 3) == 0,
        entry_or_zero(cy3_table(h11, h21), 2, 0) == 0,
        entry_or_zero(cy3_table(h11, h21), 2, 1) == h21,
        entry_or_zero(cy3_table(h11, h21), 2, 2) == h11,
        entry_or_zero(cy3_table(h11, h21), 2, 3) == 0,
        entry_or_zero(cy3_table(h11, h21), 3, 0) == 1,
        entry_or_zero(cy3_table(h11, h21), 3, 1) == 0,
        entry_or_zero(cy3_table(h11, h21), 3, 2) == 0,
        entry_or_zero(cy3_table(h11, h21), 3, 3) == 1,
{
}

/// The running sums of a row of four entries.
proof fn lemma_euler_row_of_four(g: Seq<Seq<u64>>, p: int)
    ensures
        euler_row(g, p, 1) == euler_term(g, p, 0),
        euler_row(g, p, 2) == euler_term(g, p, 0) + euler_term(g, p, 1),
        euler_row(g, p, 3) == euler_term(g, p, 0) + euler_term(g, p, 1) + euler_term(g, p, 2),
        euler_row(g, p, 4) == euler_term(g, p, 0) + euler_term(g, p, 1) + euler_term(g, p, 2)
            + euler_term(g, p, 3),
{
    let f = |q: int| euler_term(g, p, q);
    assert(sum_to(f, 0) == 0);
    assert(sum_to(f, 1) == sum_to(f, 0) + f(0));
    assert(sum_to(f, 2) == sum_to(f, 1) + f(1));
    assert(sum_to(f, 3) == sum_to(f, 2) + f(2));
    assert(sum_to(f, 4) == sum_to(f, 3) + f(3));
}

/// The Betti numbers of the Hodge diamond of a Calabi-Yau threefold:
/// `1, 0, h^{1,1}, 2 + 2 h^{2,1}, h^{1,1}, 0, 1`.
pub proof fn lemma_cy3_betti_numbers(h11: u64, h21: u64)
    ensures
        betti(cy3_table(h11, h21), 3, 0) == 1,
        betti(cy3_table(h11, h21), 3, 1) == 0,
        betti(cy3_table(h11, h21), 3, 2) == h11,
        betti(cy3_table(h11, h21), 3, 3) == 2 + 2 * h21,
        betti(cy3_table(h11, h21), 3, 4) == h11,
        betti(cy3_table(h11, h21), 3, 5) == 0,
        betti(cy3_table(h11, h21), 3, 6) == 1,
{
    let g = cy3_table(h11, h21);
    assert forall|k: int| 0 <= k <= 6 implies #[trigger] betti(g, 3, k) == betti_term(g, 3, k, 0)
        + betti_term(g, 3, k, 1) + betti_term(g, 3, k, 2) + betti_term(g, 3, k, 3) by {
        let f = |p: int| betti_term(g, 3, k, p);
        assert(sum_to(f, 0) == 0);
        assert(sum_to(f, 1) == sum_to(f, 0) + f(0));
        assert(sum_to(f, 2) == sum_to(f, 1) + f(1));
        assert(sum_to(f, 3) == sum_to(f, 2) + f(2));
        assert(sum_to(f, 4) == sum_to(f, 3) + f(3));
    }
    lemma_cy3_table_entries(h11, h21);
    assert(betti(g, 3, 0) == 1);
    assert(betti(g, 3, 1) == 0);
    assert(betti(g, 3, 2) == h11);
    assert(betti(g, 3, 3) == 2 + 2 * h21);
    assert(betti(g, 3, 4) == h11);
    assert(betti(g, 3, 5) == 0);
    assert(betti(g, 3, 6) == 1);
}

/// The Hard Lefschetz check can be run on the Hodge diamond of a Calabi-Yau
/// threefold whenever its middle Betti number `2 + 2 h^{2,1}` fits in a `u64`.
pub proof fn lemma_cy3_lefschetz_in_range(h11: u64, h21: u64)
    requires
        2 + 2 * h21 <= u64::MAX,
    ensures
        lefschetz_in_range(cy3_table(h11, h21), 3),
{
    lemma_cy3_betti_numbers(h11, h21);
}

/// The contributions of the entries of the Hodge diamond of a Calabi-Yau
/// threefold to its Euler characteristic.
proof fn lemma_cy3_euler_terms(h11: u64, h21: u64)
    ensures
        euler_term(cy3_table(h11, h21), 0, 0) == 1,
        euler_term(cy3_table(h11, h21), 0, 1) == 0,
        euler_term(cy3_table(h11, h21), 0, 2) == 0,
        euler_term(cy3_table(h11, h21), 0, 3) == -1,
        euler_term(cy3_table(h11, h21), 1, 0) == 0,
        euler_term(cy3_table(h11, h21), 1, 1) == (h11 as i64) as int,
        euler_term(cy3_table(h11, h21), 1, 2) == -((h21 as i64) as int),
        euler_term(cy3_table(h11, h21), 1, 3) == 0,
        euler_term(cy3_table(h11, h21), 2, 0) == 0,
        euler_term(cy3_table(h11, h21), 2, 1) == -((h21 as i64) as int),
        euler_term(cy3_table(h11, h21), 2, 2) == (h11 as i64) as int,
        euler_term(cy3_table(h11, h21), 2, 3) == 0,
        euler_term(cy3_table(h11, h21), 3, 0) == -1,
        euler_term(cy3_table(h11, h21), 3, 1) == 0,
        euler_term(cy3_table(h11, h21), 3, 2) == 0,
        euler_term(cy3_table(h11, h21), 3, 3) == 1,
{
    let g = cy3_table(h11, h21);
    assert(euler_term(g, 0, 0) == 1) by { lemma_cy3_table_entries(h11, h21); }
    assert(euler_term(g, 0, 1) == 0) by { lemma_cy3_table_entries(h11, h21); }
    assert(euler_term(g, 0, 2) == 0) by { lemma_cy3_table_entries(h11, h21); }
    assert(euler_term(g, 0, 3) == -1) by { lemma_cy3_table_entries(h11, h21); }
    assert(euler_term(g, 1, 0) == 0) by { lemma_cy3_table_entries(h11, h21); }
    assert(euler_term(g, 1, 1) == (h11 as i64) as int) by { lemma_cy3_table_entries(h11, h21); }
    assert(euler_term(g, 1, 2) == -((h21 as i64) as int)) by {
        lemma_cy3_table_entries(h11, h21);
    }
    assert(euler_term(g, 1, 3) == 0) by { lemma_cy3_table_entries(h11, h21); }
    assert(euler_term(g, 2, 0) == 0) by { lemma_cy3_table_entries(h11, h21); }
    assert(euler_term(g, 2, 1) == -((h21 as i64) as int)) by {
        lemma_cy3_table_entries(h11, h21);
    }
    assert(euler_term(g, 2, 2) == (h11 as i64) as int) by { lemma_cy3_table_entries(h11, h21); }
    assert(euler_term(g, 2, 3) == 0) by { lemma_cy3_table_entries(h11, h21); }
    assert(euler_term(g, 3, 0) == -1) by { lemma_cy3_table_entries(h11, h21); }
    assert(euler_term(g, 3, 1) == 0) by { lemma_cy3_table_entries(h11, h21); }
    assert(euler_term(g, 3, 2) == 0) by { lemma_cy3_table_entries(h11, h21); }
    assert(euler_term(g, 3, 3) == 1) by { lemma_cy3_table_entries(h11, h21); }
}

/// The Euler characteristic of the Hodge diamond of a Calabi-Yau threefold
/// can be computed (every step stays in `i64`) whenever `h^{1,1}` and
/// `h^{2,1}` are below `2^62`.
pub proof fn lemma_cy3_euler_in_range(h11: u64, h21: u64)
    requires
        h11 < 0x4000_0000_0000_0000u64,
        h21 < 0x4000_0000_0000_0000u64,
    ensures
        euler_in_range(cy3_table(h11, h21), 3),
{
    let g = cy3_table(h11, h21);
    lemma_cy3_euler_terms(h11, h21);
    lemma_cy3_euler_rows(h11, h21);
    lemma_cy3_table_entries(h11, h21);
    lemma_euler_row_of_four(g, 0);
    lemma_euler_row_of_four(g, 1);
    lemma_euler_row_of_four(g, 2);
    lemma_euler_row_of_four(g, 3);
    assert(euler_rows(g, 3, 0) == 0);
    assert(euler_rows(g, 3, 1) == euler_rows(g, 3, 0) + euler_row(g, 0, 4));
    assert(euler_rows(g, 3, 2) == euler_rows(g, 3, 1) + euler_row(g, 1, 4));
    assert(euler_rows(g, 3, 3) == euler_rows(g, 3, 2) + euler_row(g, 2, 4));
    assert((h11 as i64) as int == h11 && (h21 as i64) as int == h21);
}

/// Mirroring a Calabi-Yau Hodge diamond swaps `h^{1,1}` and `h^{2,1}`, and
/// mirroring twice gives the diamond back: `mirror` is an involution on the
/// diamonds of Calabi-Yau threefolds.
pub proof fn lemma_diamond_mirror_involution(h11: u64, h21: u64)
    ensures
        cy3_table(
            entry_or_zero(cy3_table(h11, h21), 2, 1),
            entry_or_zero(cy3_table(h11, h21), 1, 1),
        ) == cy3_table(h21, h11),
        cy3_table(
            entry_or_zero(cy3_table(h21, h11), 2, 1),
            entry_or_zero(cy3_table(h21, h11), 1, 1),
        ) == cy3_table(h11, h21),
{
    assert(has_entry(cy3_table(h11, h21), 2, 1) && has_entry(cy3_table(h11, h21), 1, 1));
    assert(has_entry(cy3_table(h21, h11), 2, 1) && has_entry(cy3_table(h21, h11), 1, 1));
}

/// Mirroring the Hodge diamond of a Calabi-Yau threefold negates the Euler
/// characteristic read off it.
pub proof fn lemma_diamond_mirror_flips_euler(h11: u64, h21: u64)
    ensures
        euler_total(cy3_table(h21, h11), 3) == -euler_total(cy3_table(h11, h21), 3),
{
    lemma_cy3_diamond_euler(h11, h21);
    lemma_cy3_diamond_euler(h21, h11);
}

} // verus!
