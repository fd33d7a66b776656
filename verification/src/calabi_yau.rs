//! Calabi-Yau manifolds: Ricci-flat Kähler manifolds with SU(n) holonomy.

use vstd::prelude::*;
use vstd::string::StringExecFns;

use crate::grid::{
    betti, betti_of, conjugation_holds, conjugation_symmetric, copy_table, entry, entry_of,
    entry_or_zero, has_entry, serre_holds, serre_symmetric, table_view,
};

verus! {

/// The Hodge diamond of a Calabi-Yau threefold with the given `h^{1,1}` and
/// `h^{2,1}`, indexed `[p][q]`.
pub open spec fn cy3_table(h11: u64, h21: u64) -> Seq<Seq<u64>> {
    seq![
        seq![1u64, 0u64, 0u64, 1u64],
        seq![0u64, h11, h21, 0u64],
        seq![0u64, h21, h11, 0u64],
        seq![1u64, 0u64, 0u64, 1u64],
    ]
}

/// The Euler characteristic `2 (h^{1,1} - h^{2,1})` of a Calabi-Yau threefold,
/// each Hodge number taken as a signed 64-bit integer.
pub open spec fn cy3_euler(h11: u64, h21: u64) -> int {
    2 * ((h11 as i64) - (h21 as i64))
}

/// The Euler characteristic of a Calabi-Yau threefold fits in an `i64`.
pub open spec fn cy3_euler_fits(h11: u64, h21: u64) -> bool {
    i64::MIN <= cy3_euler(h11, h21) <= i64::MAX
}

/// The name given to the mirror of a manifold called `name`.
pub open spec fn mirror_name(name: Seq<char>) -> Seq<char> {
    "Mirror("@ + name + ")"@
}

/// `h^{0,0} = 1` and `h^{n,0} = 1`, with `n + 1` rows present.
pub open spec fn vanishing_first_chern(g: Seq<Seq<u64>>, n: int) -> bool {
    &&& n + 1 <= g.len()
    &&& entry(g, 0, 0) == Some(1u64)
    &&& entry(g, n, 0) == Some(1u64)
}

/// The entries that the check of `c_1 = 0` reads are present.
pub open spec fn vanishing_first_chern_readable(g: Seq<Seq<u64>>, n: int) -> bool {
    n + 1 <= g.len() ==> has_entry(g, 0, 0) && (g[0][0] == 1 ==> has_entry(g, n, 0))
}

/// `h^{p,0} = 0` for `0 < p < n`.
pub open spec fn kahler_condition(g: Seq<Seq<u64>>, n: int) -> bool {
    forall|p: int| 1 <= p < n ==> #[trigger] entry(g, p, 0) == Some(0u64)
}

/// The column `h^{p,0}`, `0 < p < n`, can be read up to its first nonzero entry.
pub open spec fn kahler_readable(g: Seq<Seq<u64>>, n: int) -> bool {
    forall|p: int|
        1 <= p < n && (forall|q: int| 1 <= q < p ==> #[trigger] entry(g, q, 0) == Some(0u64))
            ==> #[trigger] has_entry(g, p, 0)
}

/// `h^{0,0} = 1`, `h^{n,0} = 1` and `h^{p,0} = 0` for `0 < p < n`.
pub open spec fn su_n_holonomy(g: Seq<Seq<u64>>, n: int) -> bool {
    &&& entry(g, 0, 0) == Some(1u64)
    &&& entry(g, n, 0) == Some(1u64)
    &&& kahler_condition(g, n)
}

/// The entries that the check of SU(n) holonomy reads are present.
pub open spec fn su_n_holonomy_readable(g: Seq<Seq<u64>>, n: int) -> bool {
    &&& has_entry(g, 0, 0)
    &&& g[0][0] == 1 ==> has_entry(g, n, 0) && (g[n][0] == 1 ==> kahler_readable(g, n))
}

/// All the Calabi-Yau conditions: `c_1 = 0`, the Kähler condition, SU(n) holonomy.
pub open spec fn calabi_yau_conditions(g: Seq<Seq<u64>>, n: int) -> bool {
    vanishing_first_chern(g, n) && kahler_condition(g, n) && su_n_holonomy(g, n)
}

/// The entries that the check of all Calabi-Yau conditions reads are present.
pub open spec fn calabi_yau_readable(g: Seq<Seq<u64>>, n: int) -> bool {
    vanishing_first_chern_readable(g, n) && (vanishing_first_chern(g, n) ==> kahler_readable(g, n))
}

/// A Calabi-Yau n-fold.
///
/// A Calabi-Yau manifold is a compact Kähler manifold with vanishing first
/// Chern class (c₁ = 0). By Yau's theorem, it admits a Ricci-flat metric.
/// The holonomy group is contained in SU(n) where n is the complex dimension.
#[derive(Debug)]
pub struct CalabiYauManifold {
    /// Complex dimension (n-fold)
    pub complex_dim: usize,
    /// Hodge numbers h^{p,q} for p,q = 0..=n
    pub hodge_numbers: Vec<Vec<u64>>,
    /// Euler characteristic χ = Σ_{p,q} (-1)^{p+q} h^{p,q}
    pub euler_characteristic: i64,
    /// Whether SU(n) holonomy is strict (vs. a proper subgroup)
    pub strict_holonomy_su_n: bool,
    /// Name/label for this manifold (e.g. "Quintic")
    pub name: String,
}

impl Clone for CalabiYauManifold {
    fn clone(&self) -> (r: Self)
        ensures
            r.same_as(self),
    {
        CalabiYauManifold {
            complex_dim: self.complex_dim,
            hodge_numbers: copy_table(&self.hodge_numbers),
            euler_characteristic: self.euler_characteristic,
            strict_holonomy_su_n: self.strict_holonomy_su_n,
            name: self.name.clone(),
        }
    }
}

impl CalabiYauManifold {
    /// The two manifolds agree in every field.
    pub open spec fn same_as(&self, other: &Self) -> bool {
        &&& self.complex_dim == other.complex_dim
        &&& self.table() == other.table()
        &&& self.euler_characteristic == other.euler_characteristic
        &&& self.strict_holonomy_su_n == other.strict_holonomy_su_n
        &&& self.name@ == other.name@
    }

    /// The Hodge numbers, row `p` holding `h^{p,q}`.
    pub open spec fn table(&self) -> Seq<Seq<u64>> {
        table_view(&self.hodge_numbers)
    }

    /// The manifold is the Calabi-Yau threefold built from `h11`, `h21`.
    pub open spec fn is_cy3(&self, h11: u64, h21: u64) -> bool {
        &&& self.complex_dim == 3
        &&& self.table() == cy3_table(h11, h21)
        &&& self.euler_characteristic == cy3_euler(h11, h21)
        &&& self.strict_holonomy_su_n
    }

    /// Create a Calabi-Yau 3-fold from its Hodge numbers h^{1,1} and h^{2,1}.
    ///
    /// The Hodge diamond of a CY 3-fold is:
    /// ```text
    ///              1
    ///          0       0
    ///     0      h^{1,1}      0
    /// 1     h^{2,1}     h^{2,1}     1
    ///     0      h^{1,1}      0
    ///          0       0
    ///              1
    /// ```
    pub fn cy3(h11: u64, h21: u64, name: &str) -> (r: Self)
        requires
            cy3_euler_fits(h11, h21),
        ensures
            r.is_cy3(h11, h21),
            r.name@ == name@,
    {
        let a = h11 as i64;
        let b = h21 as i64;
        let euler = 2 * (a - b);
        let hodge_numbers = vec![
            vec![1, 0, 0, 1],
            vec![0, h11, h21, 0],
            vec![0, h21, h11, 0],
            vec![1, 0, 0, 1],
        ];
        proof {
            assert(table_view(&hodge_numbers) =~~= cy3_table(h11, h21));
        }
        CalabiYauManifold {
            complex_dim: 3,
            hodge_numbers,
            euler_characteristic: euler,
            strict_holonomy_su_n: true,
            name: name.to_owned(),
        }
    }

    /// The quintic Calabi-Yau threefold in CP⁴.
    /// h^{1,1} = 1, h^{2,1} = 101, χ = -200.
    pub fn quintic() -> (r: Self)
        ensures
            r.is_cy3(1, 101),
            r.name@ == "Quintic"@,
    {
        Self::cy3(1, 101, "Quintic")
    }

    /// The mirror quintic.
    /// h^{1,1} = 101, h^{2,1} = 1, χ = 200.
    pub fn mirror_quintic() -> (r: Self)
        ensures
            r.is_cy3(101, 1),
            r.name@ == "Mirror Quintic"@,
    {
        Self::cy3(101, 1, "Mirror Quintic")
    }

    /// A Calabi-Yau 1-fold (elliptic curve / torus T²).
    /// h^{1,0} = 1, h^{0,1} = 1, χ = 0.
    pub fn elliptic_curve() -> (r: Self)
        ensures
            r.complex_dim == 1,
            r.table() == seq![seq![1u64, 1u64], seq![1u64, 1u64]],
            r.euler_characteristic == 0,
            r.strict_holonomy_su_n,
            r.name@ == "Elliptic Curve"@,
    {
        let hodge_numbers = vec![vec![1, 1], vec![1, 1]];
        proof {
            assert(table_view(&hodge_numbers) =~~= seq![seq![1u64, 1u64], seq![1u64, 1u64]]);
        }
        CalabiYauManifold {
            complex_dim: 1,
            hodge_numbers,
            euler_characteristic: 0,
            strict_holonomy_su_n: true,
            name: "Elliptic Curve".to_owned(),
        }
    }

    /// A K3 surface (Calabi-Yau 2-fold).
    /// h^{0,0}=1, h^{1,0}=0, h^{0,1}=0, h^{1,1}=20, h^{2,0}=1, h^{0,2}=1
    /// Euler characteristic = 24.
    pub fn k3_surface() -> (r: Self)
        ensures
            r.complex_dim == 2,
            r.table() == seq![
                seq![1u64, 0u64, 1u64],
                seq![0u64, 20u64, 0u64],
                seq![1u64, 0u64, 1u64],
            ],
            r.euler_characteristic == 24,
            r.strict_holonomy_su_n,
            r.name@ == "K3 Surface"@,
    {
        let hodge_numbers = vec![vec![1, 0, 1], vec![0, 20, 0], vec![1, 0, 1]];
        proof {
            assert(table_view(&hodge_numbers) =~~= seq![
                seq![1u64, 0u64, 1u64],
                seq![0u64, 20u64, 0u64],
                seq![1u64, 0u64, 1u64],
            ]);
        }
        CalabiYauManifold {
            complex_dim: 2,
            hodge_numbers,
            euler_characteristic: 24,
            strict_holonomy_su_n: true,
            name: "K3 Surface".to_owned(),
        }
    }

    /// Verify that c₁ = 0 (vanishing first Chern class).
    /// For a Calabi-Yau, this is encoded in the Hodge diamond:
    /// h^{n,0} = 1 (unique holomorphic volume form) and h^{0,0} = 1.
    pub fn verify_vanishing_first_chern_class(&self) -> (r: bool)
        requires
            self.complex_dim < usize::MAX,
            vanishing_first_chern_readable(self.table(), self.complex_dim as int),
        ensures
            r == vanishing_first_chern(self.table(), self.complex_dim as int),
    {
        let n = self.complex_dim;
        if n + 1 > self.hodge_numbers.len() {
            return false;
        }
        self.hodge_numbers[0][0] == 1 && self.hodge_numbers[n][0] == 1
    }

    /// Verify the Kähler condition: h^{p,0} = 0 for 0 < p < n.
    pub fn verify_kahler_condition(&self) -> (r: bool)
        requires
            kahler_readable(self.table(), self.complex_dim as int),
        ensures
            r == kahler_condition(self.table(), self.complex_dim as int),
    {
        let n = self.complex_dim;
        let ghost g = self.table();
        let mut p: usize = 1;
        while p < n
            invariant
                g == self.table(),
                n == self.complex_dim,
                kahler_readable(g, n as int),
                1 <= p,
                p <= n || n == 0,
                forall|q: int| 1 <= q < p ==> #[trigger] entry(g, q, 0) == Some(0u64),
            decreases n - p,
        {
            assert(has_entry(g, p as int, 0));
            assert(g[p as int] == self.hodge_numbers@[p as int]@);
            if self.hodge_numbers[p][0] != 0 {
                assert(entry(g, p as int, 0) != Some(0u64));
                return false;
            }
            assert(entry(g, p as int, 0) == Some(0u64));
            p += 1;
        }
        true
    }

    /// Verify SU(n) holonomy conditions:
    /// - h^{0,0} = 1
    /// - h^{p,0} = 0 for 0 < p < n
    /// - h^{n,0} = 1
    pub fn verify_su_n_holonomy(&self) -> (r: bool)
        requires
            su_n_holonomy_readable(self.table(), self.complex_dim as int),
        ensures
            r == su_n_holonomy(self.table(), self.complex_dim as int),
    {
        let n = self.complex_dim;
        self.hodge_numbers[0][0] == 1 && self.hodge_numbers[n][0] == 1
            && self.verify_kahler_condition()
    }

    /// Verify Ricci-flatness (encoded as c₁ = 0 in cohomology).
    pub fn verify_ricci_flat(&self) -> (r: bool)
        requires
            self.complex_dim < usize::MAX,
            vanishing_first_chern_readable(self.table(), self.complex_dim as int),
        ensures
            r == vanishing_first_chern(self.table(), self.complex_dim as int),
    {
        self.verify_vanishing_first_chern_class()
    }

    /// Verify all Calabi-Yau conditions.
    pub fn verify_calabi_yau(&self) -> (r: bool)
        requires
            self.complex_dim < usize::MAX,
            calabi_yau_readable(self.table(), self.complex_dim as int),
        ensures
            r == calabi_yau_conditions(self.table(), self.complex_dim as int),
    {
        self.verify_ricci_flat() && self.verify_kahler_condition() && self.verify_su_n_holonomy()
    }

    /// Get h^{p,q}
    pub fn hodge(&self, p: usize, q: usize) -> (r: Option<u64>)
        ensures
            r == entry(self.table(), p as int, q as int),
    {
        entry_of(&self.hodge_numbers, p, q)
    }

    /// For a CY 3-fold, return (h^{1,1}, h^{2,1}).
    pub fn h11_h21(&self) -> (r: Option<(u64, u64)>)
        requires
            self.complex_dim == 3 ==> has_entry(self.table(), 1, 1) && has_entry(self.table(), 2, 1),
        ensures
            r == (if self.complex_dim == 3 {
                Some((self.table()[1][1], self.table()[2][1]))
            } else {
                None
            }),
    {
        if self.complex_dim == 3 {
            Some((self.hodge_numbers[1][1], self.hodge_numbers[2][1]))
        } else {
            None
        }
    }

    /// Compute the mirror of this CY 3-fold: swap h^{1,1} ↔ h^{2,1}.
    pub fn mirror(&self) -> (r: Option<Self>)
        requires
            self.complex_dim == 3 ==> {
                &&& has_entry(self.table(), 1, 1)
                &&& has_entry(self.table(), 2, 1)
                &&& cy3_euler_fits(self.table()[2][1], self.table()[1][1])
            },
        ensures
            r is Some <==> self.complex_dim == 3,
            r matches Some(m) ==> {
                &&& m.is_cy3(self.table()[2][1], self.table()[1][1])
                &&& m.name@ == mirror_name(self.name@)
            },
    {
        if self.complex_dim != 3 {
            return None;
        }
        let (h11, h21) = match self.h11_h21() {
            Some(pair) => pair,
            None => return None,
        };
        let mut mirror_label = "Mirror(".to_owned();
        mirror_label.append(self.name.as_str());
        mirror_label.append(")");
        Some(Self::cy3(h21, h11, mirror_label.as_str()))
    }

    /// Verify Serre duality: h^{p,q} = h^{n-p,n-q}.
    pub fn verify_serre_duality(&self) -> (r: bool)
        ensures
            r == serre_symmetric(self.table(), self.complex_dim as int),
    {
        serre_holds(&self.hodge_numbers, self.complex_dim)
    }

    /// Verify complex conjugation symmetry: h^{p,q} = h^{q,p}.
    pub fn verify_conjugation_symmetry(&self) -> (r: bool)
        ensures
            r == conjugation_symmetric(self.table(), self.complex_dim as int),
    {
        conjugation_holds(&self.hodge_numbers, self.complex_dim)
    }

    /// Compute the middle cohomology dimension of a CY n-fold: the middle
    /// Betti number b_n = Σ_{p+q=n} h^{p,q}, over 0 <= p, q <= n.
    pub fn middle_cohomology_dimension(&self) -> (r: u64)
        requires
            betti(self.table(), self.complex_dim as int, self.complex_dim as int) <= u64::MAX,
        ensures
            r == betti(self.table(), self.complex_dim as int, self.complex_dim as int),
    {
        betti_of(&self.hodge_numbers, self.complex_dim, self.complex_dim)
    }
}

/// Every Calabi-Yau threefold built from `(h^{1,1}, h^{2,1})` passes all the
/// checks of the Calabi-Yau conditions, of Serre duality and of complex
/// conjugation symmetry, and the checks read only entries that are present.
pub proof fn lemma_cy3_satisfies_conditions(h11: u64, h21: u64)
    ensures
        calabi_yau_readable(cy3_table(h11, h21), 3),
        su_n_holonomy_readable(cy3_table(h11, h21), 3),
        calabi_yau_conditions(cy3_table(h11, h21), 3),
        serre_symmetric(cy3_table(h11, h21), 3),
        conjugation_symmetric(cy3_table(h11, h21), 3),
{
    let g = cy3_table(h11, h21);
    assert(entry(g, 1, 0) == Some(0u64));
    assert(entry(g, 2, 0) == Some(0u64));
    assert forall|p: int, q: int| 0 <= p <= 3 && 0 <= q <= 3 implies #[trigger] entry_or_zero(
        g,
        p,
        q,
    ) == entry_or_zero(g, 3 - p, 3 - q) by {
        assert(has_entry(g, p, q) && has_entry(g, 3 - p, 3 - q));
    }
    assert forall|p: int, q: int| 0 <= p <= 3 && 0 <= q <= 3 implies #[trigger] entry_or_zero(
        g,
        p,
        q,
    ) == entry_or_zero(g, q, p) by {
        assert(has_entry(g, p, q) && has_entry(g, q, p));
    }
}

/// The mirror of a Calabi-Yau threefold built from `(h^{1,1}, h^{2,1})` is the
/// threefold built from `(h^{2,1}, h^{1,1})`, and its Euler characteristic is
/// the negative of `x`'s: `m` stands for what `x.mirror()` returns,
/// as its contract describes it.
pub proof fn lemma_mirror_swaps_and_flips_euler(
    x: CalabiYauManifold,
    m: CalabiYauManifold,
    h11: u64,
    h21: u64,
)
    requires
        x.is_cy3(h11, h21),
        m.is_cy3(x.table()[2][1], x.table()[1][1]),
    ensures
        m.is_cy3(h21, h11),
        m.table()[1][1] == x.table()[2][1],
        m.table()[2][1] == x.table()[1][1],
        m.euler_characteristic == -x.euler_characteristic,
{
}

/// Mirroring twice gives back the Hodge numbers and the Euler characteristic:
/// with `m1` the mirror of `x` and `m2` the mirror of `m1`, as the contract of
/// `mirror` describes them, `m2` is the threefold `x` was built as.
pub proof fn lemma_mirror_twice_is_identity(
    x: CalabiYauManifold,
    m1: CalabiYauManifold,
    m2: CalabiYauManifold,
    h11: u64,
    h21: u64,
)
    requires
        x.is_cy3(h11, h21),
        m1.is_cy3(x.table()[2][1], x.table()[1][1]),
        m2.is_cy3(m1.table()[2][1], m1.table()[1][1]),
    ensures
        m2.is_cy3(h11, h21),
        m2.table() == x.table(),
        m2.euler_characteristic == x.euler_characteristic,
{
}

/// A threefold built from `(h^{1,1}, h^{2,1})` holds them at `[1][1]` and
/// `[2][1]`: so its mirror can be taken exactly when the mirror's Euler
/// characteristic `2 (h^{2,1} - h^{1,1})` fits in an `i64`.
pub proof fn lemma_cy3_entries(x: CalabiYauManifold, h11: u64, h21: u64)
    requires
        x.is_cy3(h11, h21),
    ensures
        has_entry(x.table(), 1, 1),
        has_entry(x.table(), 2, 1),
        x.table()[1][1] == h11,
        x.table()[2][1] == h21,
{
}

/// A manifold with a nonzero `h^{p,0}` for some `0 < p < n` (a holomorphic
/// p-form in a degree strictly between 0 and n) is not Kähler in the sense of
/// the check, has no SU(n) holonomy and is no Calabi-Yau manifold: every such
/// row is read, the last one `p = n - 1` included.
pub proof fn lemma_holomorphic_form_fails_checks(g: Seq<Seq<u64>>, n: int, p: int)
    requires
        1 <= p < n,
        entry(g, p, 0) != Some(0u64),
    ensures
        !kahler_condition(g, n),
        !su_n_holonomy(g, n),
        !calabi_yau_conditions(g, n),
{
}

/// The Calabi-Yau check fails on a table with fewer than `n + 1` rows, or
/// with `h^{0,0} != 1`, or with `h^{n,0} != 1`.
pub proof fn lemma_calabi_yau_needs_unit_corners(g: Seq<Seq<u64>>, n: int)
    requires
        g.len() < n + 1 || g[0].len() == 0 || g[0][0] != 1 || !has_entry(g, n, 0) || g[n][0]
            != 1,
    ensures
        !vanishing_first_chern(g, n),
        !calabi_yau_conditions(g, n),
{
}

/// A table with at least `n + 1` rows, `h^{0,0} = h^{n,0} = 1` and
/// `h^{p,0} = 0` for every `0 < p < n` passes the checks of `c_1 = 0`, of the
/// Kähler condition, of SU(n) holonomy, and the whole Calabi-Yau check.
pub proof fn lemma_calabi_yau_accepts(g: Seq<Seq<u64>>, n: int)
    requires
        0 <= n < g.len(),
        g[0].len() > 0 && g[0][0] == 1,
        g[n].len() > 0 && g[n][0] == 1,
        forall|p: int| 1 <= p < n ==> g[p].len() > 0 && #[trigger] g[p][0] == 0,
    ensures
        vanishing_first_chern(g, n),
        kahler_condition(g, n),
        su_n_holonomy(g, n),
        calabi_yau_conditions(g, n),
{
    assert forall|p: int| 1 <= p < n implies #[trigger] entry(g, p, 0) == Some(0u64) by {
        assert(g[p][0] == 0);
    }
}

/// SU(n) holonomy fails when `h^{0,0} != 1` or `h^{n,0} != 1` (or either
/// entry is missing).
pub proof fn lemma_su_n_needs_unit_corners(g: Seq<Seq<u64>>, n: int)
    requires
        entry(g, 0, 0) != Some(1u64) || entry(g, n, 0) != Some(1u64),
    ensures
        !su_n_holonomy(g, n),
        !calabi_yau_conditions(g, n),
{
}

} // verus!
