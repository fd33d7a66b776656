//! Mirror map: transformations between A-model and B-model geometries.
//!
//! The mirror map relates the complexified Kähler moduli of the A-model
//! to the complex structure moduli of the B-model via mirror symmetry.
//!
//! For the quintic: q = exp(2πi·t) where t is the Kähler parameter,
//! and the mirror map is given by periods of the mirror manifold.

use vstd::prelude::*;

use crate::calabi_yau::{cy3_euler_fits, lemma_cy3_entries, mirror_name, CalabiYauManifold};
use crate::gromov_witten::{gw_lookup, quintic_gw_entries, quintic_gw_lookup, quintic_gw_number};
use crate::grid::has_entry;

verus! {

/// The side of mirror symmetry we're on.
#[derive(Debug, Clone, Copy, PartialEq, Eq, Structural)]
pub enum MirrorSide {
    /// A-model: symplectic geometry, counts curves (GW invariants)
    AModel,
    /// B-model: complex geometry, variation of Hodge structure
    BModel,
}

/// `(h^{1,1}, h^{2,1})` of a threefold, `(0, 0)` for other dimensions.
pub open spec fn h11_h21_or_zero(m: CalabiYauManifold) -> (u64, u64) {
    if m.complex_dim == 3 {
        (m.table()[1][1], m.table()[2][1])
    } else {
        (0u64, 0u64)
    }
}

/// The entries `h^{1,1}`, `h^{2,1}` of a threefold are present, and its
/// mirror's Euler characteristic fits in an `i64`: its mirror can be taken.
pub open spec fn mirror_defined(m: CalabiYauManifold) -> bool {
    m.complex_dim == 3 ==> {
        &&& has_entry(m.table(), 1, 1)
        &&& has_entry(m.table(), 2, 1)
        &&& cy3_euler_fits(m.table()[2][1], m.table()[1][1])
    }
}

/// A mirror map relating A-model and B-model parameters.
#[derive(Debug, Clone)]
pub struct MirrorMap {
    /// Source manifold
    pub source: CalabiYauManifold,
    /// Target (mirror) manifold
    pub target: CalabiYauManifold,
    /// Number of Kähler moduli = h^{1,1} of source = h^{2,1} of target
    pub kahler_moduli: usize,
    /// Number of complex structure moduli = h^{2,1} of source = h^{1,1} of target
    pub complex_moduli: usize,
    /// The side of the source
    pub source_side: MirrorSide,
}

impl MirrorMap {
    /// The map is the one `cy3_pair` builds from the threefold `a`: `a` itself
    /// as source, its mirror as target, its `h^{1,1}` Kähler and its `h^{2,1}`
    /// complex structure moduli, on the A-model side.
    pub open spec fn is_pair_of(&self, a: CalabiYauManifold) -> bool {
        &&& a.complex_dim == 3
        &&& self.source.same_as(&a)
        &&& self.target.is_cy3(a.table()[2][1], a.table()[1][1])
        &&& self.target.name@ == mirror_name(a.name@)
        &&& self.kahler_moduli == a.table()[1][1] as usize
        &&& self.complex_moduli == a.table()[2][1] as usize
        &&& self.source_side == MirrorSide::AModel
    }

    /// The mirror of the target can be taken, and the source's Hodge numbers
    /// can be read where `verify_involution` reads them.
    pub open spec fn involution_readable(&self) -> bool {
        &&& mirror_defined(self.target)
        &&& self.target.complex_dim == 3 ==> (self.source.complex_dim == 3 ==> has_entry(
            self.source.table(),
            1,
            1,
        ) && has_entry(self.source.table(), 2, 1))
    }

    /// The target is a threefold, and mirroring it back gives the source's
    /// `(h^{1,1}, h^{2,1})` (read as `(0, 0)` when the source is not a threefold).
    pub open spec fn involution_holds(&self) -> bool {
        &&& self.target.complex_dim == 3
        &&& h11_h21_or_zero(self.source) == (self.target.table()[2][1], self.target.table()[1][1])
    }

    /// Create the mirror map between a CY 3-fold and its mirror.
    pub fn cy3_pair(a: &CalabiYauManifold) -> (r: Option<Self>)
        requires
            mirror_defined(*a),
        ensures
            r is Some <==> a.complex_dim == 3,
            r matches Some(mm) ==> mm.is_pair_of(*a),
    {
        if a.complex_dim != 3 {
            return None;
        }
        let mirror = match a.mirror() {
            Some(m) => m,
            None => return None,
        };
        let (h11, h21) = match a.h11_h21() {
            Some(pair) => pair,
            None => return None,
        };
        Some(
            Self {
                source: a.clone(),
                target: mirror,
                kahler_moduli: h11 as usize,
                complex_moduli: h21 as usize,
                source_side: MirrorSide::AModel,
            },
        )
    }

    /// The quintic mirror map: Quintic ↔ Mirror Quintic.
    pub fn quintic() -> (r: Self)
        ensures
            r.source.is_cy3(1, 101),
            r.source.name@ == "Quintic"@,
            r.target.is_cy3(101, 1),
            r.target.name@ == "Mirror Quintic"@,
            r.kahler_moduli == 1,
            r.complex_moduli == 101,
            r.source_side == MirrorSide::AModel,
    {
        let q = CalabiYauManifold::quintic();
        let mq = CalabiYauManifold::mirror_quintic();
        Self {
            source: q,
            target: mq,
            kahler_moduli: 1,
            complex_moduli: 101,
            source_side: MirrorSide::AModel,
        }
    }

    /// Verify the mirror map is an involution: M ∘ M = id (up to the swap).
    pub fn verify_involution(&self) -> (r: bool)
        requires
            self.involution_readable(),
        ensures
            r == self.involution_holds(),
    {
        match Self::cy3_pair(&self.target) {
            Some(reverse) => {
                let (h11_src, h21_src) = match self.source.h11_h21() {
                    Some(pair) => pair,
                    None => (0, 0),
                };
                let (h11_rev, h21_rev) = match reverse.target.h11_h21() {
                    Some(pair) => pair,
                    None => (0, 0),
                };
                h11_src == h11_rev && h21_src == h21_rev
            },
            None => false,
        }
    }

    /// Count instanton contributions at a given degree using the mirror map.
    /// This uses the mirror theorem to compute GW invariants from period computations.
    pub fn instanton_number(&self, degree: u32) -> (r: Option<i64>)
        ensures
            r == quintic_gw_number(degree),
    {
        quintic_gw_lookup(degree)
    }
}

/// The mirror map built from any threefold is an involution: mirroring its
/// target gives back the source's Hodge numbers, so `verify_involution`
/// accepts it, provided the source's own Euler characteristic formula
/// `2 (h^{1,1} - h^{2,1})` fits in an `i64` (so that the target's mirror can
/// be taken).
pub proof fn lemma_pair_is_involution(a: CalabiYauManifold, mm: MirrorMap)
    requires
        mm.is_pair_of(a),
        has_entry(a.table(), 1, 1),
        has_entry(a.table(), 2, 1),
        cy3_euler_fits(a.table()[1][1], a.table()[2][1]),
    ensures
        mm.involution_readable(),
        mm.involution_holds(),
{
    lemma_cy3_entries(mm.target, a.table()[2][1], a.table()[1][1]);
}

/// The moduli of a mirror map built from a threefold are read on both sides:
/// the Kähler moduli are `h^{1,1}` of the source and `h^{2,1}` of the target,
/// the complex structure moduli `h^{2,1}` of the source and `h^{1,1}` of the
/// target.
pub proof fn lemma_pair_moduli_match(a: CalabiYauManifold, mm: MirrorMap)
    requires
        mm.is_pair_of(a),
    ensures
        mm.kahler_moduli == mm.source.table()[1][1] as usize,
        mm.kahler_moduli == mm.target.table()[2][1] as usize,
        mm.complex_moduli == mm.source.table()[2][1] as usize,
        mm.complex_moduli == mm.target.table()[1][1] as usize,
{
    lemma_cy3_entries(mm.target, a.table()[2][1], a.table()[1][1]);
}

/// The quintic mirror map, as `MirrorMap::quintic` builds it, is an involution.
pub proof fn lemma_quintic_map_is_involution(mm: MirrorMap)
    requires
        mm.source.is_cy3(1, 101),
        mm.target.is_cy3(101, 1),
    ensures
        mm.involution_readable(),
        mm.involution_holds(),
{
    lemma_cy3_entries(mm.source, 1, 101);
    lemma_cy3_entries(mm.target, 101, 1);
}

/// The mirror theorem for the quintic, degree by degree: the instanton number
/// that the mirror map computes from periods equals the genus-zero
/// Gromov-Witten invariant that the quintic's table records, for every degree
/// (both absent beyond degree 3).
pub proof fn lemma_instantons_match_gw_table(degree: u32)
    ensures
        quintic_gw_number(degree) == gw_lookup(quintic_gw_entries(), 0, degree as int),
{
}

/// Mirroring the target of a map between threefolds gives back the source
/// exactly when both Hodge numbers are swapped: `h^{1,1}` of the source is
/// `h^{2,1}` of the target and `h^{2,1}` of the source is `h^{1,1}` of the
/// target. A source that agrees in only one of them is rejected.
pub proof fn lemma_involution_compares_both_numbers(mm: MirrorMap)
    requires
        mm.source.complex_dim == 3,
        mm.target.complex_dim == 3,
    ensures
        mm.involution_holds() <==> (mm.source.table()[1][1] == mm.target.table()[2][1]
            && mm.source.table()[2][1] == mm.target.table()[1][1]),
{
}

/// A map whose target is not a threefold is never an involution; one whose
/// source is not a threefold is one only when the target has
/// `h^{1,1} = h^{2,1} = 0` (the source's numbers are then read as zero).
pub proof fn lemma_involution_outside_threefolds(mm: MirrorMap)
    ensures
        mm.target.complex_dim != 3 ==> !mm.involution_holds(),
        mm.target.complex_dim == 3 && mm.source.complex_dim != 3 ==> (mm.involution_holds() <==> (
        mm.target.table()[2][1] == 0 && mm.target.table()[1][1] == 0)),
{
}

} // verus!
