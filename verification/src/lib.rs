//! # lau-mirror-symmetry
//!
//! Mirror symmetry — the duality between symplectic and complex geometry.
//!
//! This crate implements the mathematical structures underlying mirror symmetry:
//! - **Calabi-Yau manifolds** with Ricci-flat Kähler metrics and SU(n) holonomy
//! - **Hodge diamonds** for Calabi-Yau 3-folds, including h^{1,1} and h^{2,1} mirror pairs
//! - **Gromov-Witten invariants** counting pseudo-holomorphic curves
//! - **Quantum cohomology** rings built on Gromov-Witten tables
//! - **Mirror maps** between A-model and B-model geometries
//! - **Homological mirror symmetry** (Fukaya category ↔ derived category)
//! - **Monodromy** of maximally unipotent Picard-Fuchs equations
//! - **Agent dualities**: two agent architectures computing the same invariants
//!
//! Every operation states its result in its contract, and the laws of the
//! structures (mirror symmetry is an involution, Serre duality forces the
//! Hard Lefschetz symmetry, the instanton numbers agree with the
//! Gromov-Witten invariants, ...) are proved as proof functions beside them.

pub mod decimal;
pub mod grid;
pub mod calabi_yau;
pub mod hodge;
pub mod gromov_witten;
pub mod quantum_cohomology;
pub mod mirror_map;
pub mod homological;
pub mod agent_duality;
pub mod picard_fuchs;

pub use calabi_yau::CalabiYauManifold;
pub use hodge::{HodgeDiamond, HodgeNumber};
pub use gromov_witten::{GromovWittenInvariant, CurveClass};
pub use quantum_cohomology::QuantumCohomologyRing;
pub use mirror_map::MirrorMap;
pub use homological::{FukayaCategory, DerivedCategory, HMSDuality};
pub use agent_duality::AgentDuality;
