//! Quantum cohomology: the deformed cup product with GW invariants.
//!
//! The quantum cohomology ring QH*(X) is a deformation of the ordinary
//! cohomology ring H*(X) where the product incorporates Gromov-Witten invariants.
//! For a Calabi-Yau 3-fold with h^{1,1} = 1, this is:
//!
//! QH*(X) = ℂ[x, q] / (W(x, q))
//!
//! where W is the quantum period / Landau-Ginzburg potential.

use vstd::prelude::*;
use vstd::string::StringExecFns;

use crate::decimal::{decimal, push_decimal};
use crate::gromov_witten::{quintic_gw_entries, GWTable};

verus! {

/// The quantum cohomology ring for a Calabi-Yau manifold.
#[derive(Debug, Clone)]
pub struct QuantumCohomologyRing {
    /// Name of the manifold
    pub name: String,
    /// Dimension of H^{1,1} (number of Kähler moduli)
    pub h11: usize,
    /// Classical ring dimension
    pub classical_dim: usize,
    /// GW invariants table
    pub gw_table: Option<GWTable>,
    /// The quantum parameter q (as a formal variable we track degree)
    pub q_expansion_order: usize,
}

impl QuantumCohomologyRing {
    /// Create the quantum cohomology ring for the quintic.
    ///
    /// QH*(Q) = ℂ[x, q] / (x⁵ + 5·q·∏_{d=1}^∞ (1 + d·q)^5)
    ///
    /// At degree 0, this reduces to the classical relation x⁵ = 0 (in the appropriate grading).
    pub fn quintic() -> (r: Self)
        ensures
            r.name@ == "Quintic"@,
            r.h11 == 1,
            r.classical_dim == 4,
            r.gw_table matches Some(t) && t.manifold@ == "Quintic"@ && t.entries()
                == quintic_gw_entries(),
            r.q_expansion_order == 10,
    {
        let gw_table = GWTable::quintic_table();
        Self {
            name: "Quintic".to_owned(),
            h11: 1,
            classical_dim: 4,  // H*(ℙ⁴) has dimension 5, but we quotient
            gw_table: Some(gw_table),
            q_expansion_order: 10,
        }
    }

    /// Create a general quantum cohomology ring.
    pub fn new(name: &str, h11: usize, classical_dim: usize) -> (r: Self)
        ensures
            r.name@ == name@,
            r.h11 == h11,
            r.classical_dim == classical_dim,
            r.gw_table is None,
            r.q_expansion_order == 10,
    {
        Self { name: name.to_owned(), h11, classical_dim, gw_table: None, q_expansion_order: 10 }
    }

    /// The classical cohomology ring for ℙⁿ: ℂ[x]/(x^{n+1}), named `P{n}`.
    pub fn projective_space(n: usize) -> (r: Self)
        requires
            n < usize::MAX,
        ensures
            r.name@ == "P"@ + decimal(n as nat),
            r.h11 == 1,
            r.classical_dim == n + 1,
            r.gw_table is None,
            r.q_expansion_order == 10,
    {
        let mut name = "P".to_owned();
        push_decimal(&mut name, n as u64);
        Self::new(name.as_str(), 1, n + 1)
    }
}

} // verus!
