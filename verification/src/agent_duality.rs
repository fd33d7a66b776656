//! Agent dualities: two agent architectures computing the same invariants.
//!
//! This module formalizes the analogy between mirror symmetry and
//! agent architecture dualities. Just as the A-model and B-model compute
//! the same invariants through different geometric frameworks, two different
//! agent architectures can produce equivalent computational outcomes.
//!
//! The key insight: if two architectures are "mirror duals," then:
//! - Architecture A (symplectic / combinatorial) ↔ Architecture B (algebraic / analytic)
//! - Their "Hodge diamonds" (capability matrices) are transposes of each other
//! - Their "GW invariants" (performance metrics) agree
//! - There exists a "mirror map" relating their parameter spaces
//!
//! The architectures here carry their capability matrices; the floating-point
//! performance metrics and parameter maps, with the corrections computed from
//! them, live with the serializable copies of these types outside this library.

use vstd::prelude::*;

use crate::calabi_yau::{cy3_euler, cy3_euler_fits, cy3_table, CalabiYauManifold};
use crate::grid::{
    entry_or_zero, euler_prefix, euler_row, euler_rows, has_entry, lemma_sum_congruent,
    ragged_euler_in_range, ragged_euler_of, ragged_euler_prefix, ragged_euler_rows,
    ragged_euler_total, table_view,
};
use crate::hodge::{lemma_cy3_euler_in_range, lemma_cy3_euler_rows};

verus! {

/// The "Hodge numbers" `h^{1,1}` of `a` and `h^{2,1}` of `b` are compared, and
/// when they agree `h^{2,1}` of `a` and `h^{1,1}` of `b` are read as well.
pub open spec fn capability_mirror_readable(a: Seq<Seq<u64>>, b: Seq<Seq<u64>>) -> bool {
    (a.len() == b.len() && a.len() >= 2 && b.len() >= 3 && a[1].len() >= 2 && b[2].len() >= 2
        && a[1][1] == b[2][1]) ==> a[2].len() >= 2 && b[1].len() >= 2
}

/// The capability matrices are mirrors: they have as many rows, and where
/// both hold `h^{1,1}` and `h^{2,1}` those are swapped.
pub open spec fn capability_mirror(a: Seq<Seq<u64>>, b: Seq<Seq<u64>>) -> bool {
    if a.len() != b.len() {
        false
    } else if a.len() >= 2 && b.len() >= 3 && a[1].len() >= 2 && b[2].len() >= 2 {
        a[1][1] == b[2][1] && a[2][1] == b[1][1]
    } else {
        true
    }
}

/// An agent architecture with its capability profile.
#[derive(Debug, Clone)]
pub struct AgentArchitecture {
    /// Name of the architecture
    pub name: String,
    /// Capability dimensions (analogous to Hodge numbers)
    pub capabilities: Vec<Vec<u64>>,
}

impl AgentArchitecture {
    /// The capability matrix, row by row.
    pub open spec fn table(&self) -> Seq<Seq<u64>> {
        table_view(&self.capabilities)
    }

    pub fn new(name: &str, capabilities: Vec<Vec<u64>>) -> (r: Self)
        ensures
            r.name@ == name@,
            r.table() == table_view(&capabilities),
    {
        Self { name: name.to_owned(), capabilities }
    }

    /// Compute the "Euler characteristic" (net capability score):
    /// Σ (-1)^{p+q} c_{p,q} over every entry of the capability matrix.
    pub fn euler_characteristic(&self) -> (r: i64)
        requires
            ragged_euler_in_range(self.table()),
        ensures
            r == ragged_euler_total(self.table()),
    {
        ragged_euler_of(&self.capabilities)
    }
}

/// An agent duality: two architectures that compute the same invariants.
#[derive(Debug, Clone)]
pub struct AgentDuality {
    /// Architecture A (analogous to A-model)
    pub architecture_a: AgentArchitecture,
    /// Architecture B (analogous to B-model)
    pub architecture_b: AgentArchitecture,
}

impl AgentDuality {
    /// Both Euler characteristics can be computed, and B's can be negated.
    pub open spec fn invariant_match_readable(&self) -> bool {
        &&& ragged_euler_in_range(self.architecture_a.table())
        &&& ragged_euler_in_range(self.architecture_b.table())
        &&& ragged_euler_total(self.architecture_b.table()) != i64::MIN
    }

    /// The Euler characteristics have opposite signs.
    pub open spec fn invariant_match(&self) -> bool {
        ragged_euler_total(self.architecture_a.table()) == -ragged_euler_total(
            self.architecture_b.table(),
        )
    }

    /// Create a duality from two architectures.
    pub fn new(a: AgentArchitecture, b: AgentArchitecture) -> (r: Self)
        ensures
            r.architecture_a.name@ == a.name@,
            r.architecture_a.table() == a.table(),
            r.architecture_b.name@ == b.name@,
            r.architecture_b.table() == b.table(),
    {
        Self { architecture_a: a, architecture_b: b }
    }

    /// Create a CY-motivated agent duality.
    /// Architecture A has "Hodge diamond" h, Architecture B has its mirror.
    pub fn cy_duality(name_a: &str, name_b: &str, h11: u64, h21: u64) -> (r: Self)
        requires
            cy3_euler_fits(h11, h21),
            cy3_euler_fits(h21, h11),
        ensures
            r.architecture_a.name@ == name_a@,
            r.architecture_a.table() == cy3_table(h11, h21),
            r.architecture_b.name@ == name_b@,
            r.architecture_b.table() == cy3_table(h21, h11),
    {
        let cy_a = CalabiYauManifold::cy3(h11, h21, name_a);
        let cy_b = CalabiYauManifold::cy3(h21, h11, name_b);
        let a = AgentArchitecture::new(name_a, cy_a.hodge_numbers);
        let b = AgentArchitecture::new(name_b, cy_b.hodge_numbers);
        Self { architecture_a: a, architecture_b: b }
    }

    /// Verify that both architectures produce the same "invariants":
    /// their Euler characteristics have opposite signs (mirror).
    pub fn verify_invariant_match(&self) -> (r: bool)
        requires
            self.invariant_match_readable(),
        ensures
            r == self.invariant_match(),
    {
        let chi_a = self.architecture_a.euler_characteristic();
        let chi_b = self.architecture_b.euler_characteristic();
        chi_a == -chi_b
    }

    /// Verify that the capability matrices are transposes (mirror swap):
    /// for a CY 3-fold mirror, h^{1,1}_A = h^{2,1}_B and vice versa.
    pub fn verify_capability_mirror(&self) -> (r: bool)
        requires
            capability_mirror_readable(self.architecture_a.table(), self.architecture_b.table()),
        ensures
            r == capability_mirror(self.architecture_a.table(), self.architecture_b.table()),
    {
        let cap_a = &self.architecture_a.capabilities;
        let cap_b = &self.architecture_b.capabilities;
        let ghost ga = self.architecture_a.table();
        let ghost gb = self.architecture_b.table();
        if cap_a.len() != cap_b.len() {
            return false;
        }
        if cap_a.len() >= 2 && cap_b.len() >= 3 {
            assert(cap_a@[1]@ == ga[1] && cap_b@[2]@ == gb[2]);
            if cap_a[1].len() >= 2 && cap_b[2].len() >= 2 {
                assert(cap_a@[2]@ == ga[2] && cap_b@[1]@ == gb[1]);
                return cap_a[1][1] == cap_b[2][1] && cap_a[2][1] == cap_b[1][1];
            }
        }
        true
    }

    /// Verify the full duality: invariant match + capability mirror.
    pub fn verify_full_duality(&self) -> (r: bool)
        requires
            self.invariant_match_readable(),
            self.invariant_match() ==> capability_mirror_readable(
                self.architecture_a.table(),
                self.architecture_b.table(),
            ),
        ensures
            r == (self.invariant_match() && capability_mirror(
                self.architecture_a.table(),
                self.architecture_b.table(),
            )),
    {
        self.verify_invariant_match() && self.verify_capability_mirror()
    }

    /// The quintic agent duality: Quintic ↔ Mirror Quintic.
    pub fn quintic() -> (r: Self)
        ensures
            r.architecture_a.name@ == "Quintic Agent"@,
            r.architecture_a.table() == cy3_table(1, 101),
            r.architecture_b.name@ == "Mirror Quintic Agent"@,
            r.architecture_b.table() == cy3_table(101, 1),
    {
        Self::cy_duality("Quintic Agent", "Mirror Quintic Agent", 1, 101)
    }
}

/// The Euler characteristic of the capability matrix of a CY-motivated
/// architecture is that of the Calabi-Yau threefold: `2 (h^{1,1} - h^{2,1})`.
pub proof fn lemma_cy3_capability_euler(h11: u64, h21: u64)
    ensures
        ragged_euler_total(cy3_table(h11, h21)) == cy3_euler(h11, h21),
{
    let g = cy3_table(h11, h21);
    lemma_cy3_euler_rows(h11, h21);
    assert(g.len() == 4 && g[0].len() == 4 && g[1].len() == 4 && g[2].len() == 4 && g[3].len()
        == 4);
    assert(ragged_euler_rows(g, 0) == 0);
    assert(ragged_euler_rows(g, 1) == ragged_euler_rows(g, 0) + euler_row(g, 0, 4));
    assert(ragged_euler_rows(g, 2) == ragged_euler_rows(g, 1) + euler_row(g, 1, 4));
    assert(ragged_euler_rows(g, 3) == ragged_euler_rows(g, 2) + euler_row(g, 2, 4));
    assert(ragged_euler_rows(g, 4) == ragged_euler_rows(g, 3) + euler_row(g, 3, 4));
}

/// Every CY-motivated agent duality, as `cy_duality` builds it, passes the
/// full duality check: the Euler characteristics are opposite and the
/// capability matrices are mirrors, whenever the Euler sums of both
/// capability matrices stay in `i64` step by step.
pub proof fn lemma_cy_duality_is_full(d: AgentDuality, h11: u64, h21: u64)
    requires
        d.architecture_a.table() == cy3_table(h11, h21),
        d.architecture_b.table() == cy3_table(h21, h11),
        ragged_euler_in_range(cy3_table(h11, h21)),
        ragged_euler_in_range(cy3_table(h21, h11)),
    ensures
        d.invariant_match_readable(),
        d.invariant_match(),
        capability_mirror_readable(d.architecture_a.table(), d.architecture_b.table()),
        capability_mirror(d.architecture_a.table(), d.architecture_b.table()),
{
    let ga = cy3_table(h11, h21);
    lemma_cy3_capability_euler(h11, h21);
    lemma_cy3_capability_euler(h21, h11);
    assert(ga.len() == 4 && ga[3].len() == 4);
    assert(ragged_euler_prefix(ga, 3, 3) == ragged_euler_rows(ga, 4)) by {
        assert(ragged_euler_rows(ga, 4) == ragged_euler_rows(ga, 3) + euler_row(ga, 3, 4));
    }
    assert(i64::MIN <= ragged_euler_prefix(ga, 3, 3) <= i64::MAX);
}

/// The Euler characteristic of the capability matrix of a CY-motivated
/// architecture can be computed (every step stays in `i64`) whenever
/// `h^{1,1}` and `h^{2,1}` are below `2^62`.
pub proof fn lemma_cy3_capabilities_in_range(h11: u64, h21: u64)
    requires
        h11 < 0x4000_0000_0000_0000u64,
        h21 < 0x4000_0000_0000_0000u64,
    ensures
        ragged_euler_in_range(cy3_table(h11, h21)),
{
    let g = cy3_table(h11, h21);
    lemma_cy3_euler_in_range(h11, h21);
    assert(g.len() == 4 && g[0].len() == 4 && g[1].len() == 4 && g[2].len() == 4 && g[3].len()
        == 4);
    let ragged = |p: int| euler_row(g, p, g[p].len() as int);
    let square = |p: int| euler_row(g, p, 3int + 1);
    assert forall|m: int| 0 <= m <= 4 implies #[trigger] ragged_euler_rows(g, m) == euler_rows(
        g,
        3,
        m,
    ) by {
        lemma_sum_congruent(ragged, square, m);
    }
    assert forall|p: int, q: int| 0 <= p < g.len() && 0 <= q < g[p].len() implies {
        &&& i64::MIN <= #[trigger] ragged_euler_prefix(g, p, q) <= i64::MAX
        &&& (p + q) % 2 != 0 ==> (g[p][q] as i64) != i64::MIN
    } by {
        assert(ragged_euler_rows(g, p) == euler_rows(g, 3, p));
        assert(ragged_euler_prefix(g, p, q) == euler_prefix(g, 3, p, q));
        assert(has_entry(g, p, q));
        assert(entry_or_zero(g, p, q) == g[p][q]);
    }
}

/// The quintic agent duality passes the full duality check.
pub proof fn lemma_quintic_duality_is_full(d: AgentDuality)
    requires
        d.architecture_a.table() == cy3_table(1, 101),
        d.architecture_b.table() == cy3_table(101, 1),
    ensures
        d.invariant_match_readable(),
        d.invariant_match(),
        capability_mirror_readable(d.architecture_a.table(), d.architecture_b.table()),
        capability_mirror(d.architecture_a.table(), d.architecture_b.table()),
{
    lemma_cy3_capabilities_in_range(1, 101);
    lemma_cy3_capabilities_in_range(101, 1);
    lemma_cy_duality_is_full(d, 1, 101);
}

/// When both capability matrices have as many rows and hold `h^{1,1}` and
/// `h^{2,1}`, they are mirrors exactly when both numbers are swapped:
/// `h^{1,1}_A = h^{2,1}_B` and `h^{2,1}_A = h^{1,1}_B`. One swap alone is not
/// enough.
pub proof fn lemma_capability_mirror_compares_both(a: Seq<Seq<u64>>, b: Seq<Seq<u64>>)
    requires
        a.len() == b.len(),
        a.len() >= 3,
        a[1].len() >= 2,
        a[2].len() >= 2,
        b[1].len() >= 2,
        b[2].len() >= 2,
    ensures
        capability_mirror(a, b) <==> (a[1][1] == b[2][1] && a[2][1] == b[1][1]),
{
}

/// Capability matrices with different numbers of rows are never mirrors.
pub proof fn lemma_capability_mirror_needs_equal_rows(a: Seq<Seq<u64>>, b: Seq<Seq<u64>>)
    requires
        a.len() != b.len(),
    ensures
        !capability_mirror(a, b),
{
}

/// Two architectures whose Euler characteristics are not opposite fail the
/// invariant match; those whose Euler characteristics are opposite pass it.
pub proof fn lemma_invariant_match_compares_euler(d: AgentDuality)
    ensures
        d.invariant_match() <==> ragged_euler_total(d.architecture_a.table())
            + ragged_euler_total(d.architecture_b.table()) == 0,
{
}

} // verus!
