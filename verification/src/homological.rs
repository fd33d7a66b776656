//! Homological mirror symmetry: Fukaya category ↔ derived category.
//!
//! Kontsevich's homological mirror symmetry (HMS) conjecture states that
//! for a mirror pair (X, X̊):
//!
//!   D^π Fuk(X) ≅ D^b Coh(X̊)
//!
//! The derived Fukaya category of the symplectic side X is equivalent to
//! the bounded derived category of coherent sheaves on the complex side X̊.
//!
//! The categories here record their objects; their morphism matrices, which
//! hold floating-point entries and which no operation reads, are kept by the
//! serializable copies of these types outside this library.

use vstd::prelude::*;
use vstd::string::StringExecFns;

use crate::decimal::{decimal, push_decimal};

verus! {

/// An object in a triangulated category (simplified).
#[derive(Debug, Clone)]
pub struct CategoryObject {
    pub id: usize,
    pub name: String,
    pub rank: usize,
}

/// A Lagrangian submanifold (object in the Fukaya category).
#[derive(Debug, Clone)]
pub struct Lagrangian {
    pub id: usize,
    pub name: String,
    /// Homology class represented
    pub homology_class: Vec<i64>,
    /// Maslov index
    pub maslov_index: i32,
    /// Whether it's an object in the wrapped or compact Fukaya category
    pub wrapped: bool,
}

/// A coherent sheaf (object in the derived category).
#[derive(Debug, Clone)]
pub struct CoherentSheaf {
    pub id: usize,
    pub name: String,
    /// Chern character (simplified as integer vector)
    pub chern_character: Vec<i64>,
    /// Rank
    pub rank: usize,
}

impl Lagrangian {
    /// The Lagrangian has the given index, name, class and Maslov index, and
    /// lies in the compact Fukaya category.
    pub open spec fn is(&self, id: int, name: Seq<char>, class: Seq<i64>, maslov: i32) -> bool {
        &&& self.id == id
        &&& self.name@ == name
        &&& self.homology_class@ == class
        &&& self.maslov_index == maslov
        &&& !self.wrapped
    }
}

impl CoherentSheaf {
    /// The sheaf has the given index, name, Chern character and rank.
    pub open spec fn is(&self, id: int, name: Seq<char>, chern: Seq<i64>, rank: int) -> bool {
        &&& self.id == id
        &&& self.name@ == name
        &&& self.chern_character@ == chern
        &&& self.rank == rank
    }
}

/// The name `O(i)` of the twisted structure sheaf.
pub open spec fn twist_name(i: nat) -> Seq<char> {
    "O("@ + decimal(i) + ")"@
}

/// The Ext groups `Ext^*(F, G)` for objects `id1`, `id2` of a Calabi-Yau
/// threefold: those of `H^*(X)` for equal objects, zero otherwise.
pub open spec fn ext_dimensions(id1: usize, id2: usize) -> Seq<u64> {
    if id1 == id2 {
        seq![1u64, 0u64, 0u64, 1u64]
    } else {
        seq![0u64, 0u64, 0u64, 0u64]
    }
}

/// No two pairs of the correspondence share their first component.
pub open spec fn firsts_distinct(c: Seq<(usize, usize)>) -> bool {
    forall|i: int, j: int| 0 <= i < c.len() && 0 <= j < c.len() && i != j ==> #[trigger] c[i].0 != #[trigger] c[j].0
}

/// No two pairs of the correspondence share their second component.
pub open spec fn seconds_distinct(c: Seq<(usize, usize)>) -> bool {
    forall|i: int, j: int| 0 <= i < c.len() && 0 <= j < c.len() && i != j ==> #[trigger] c[i].1 != #[trigger] c[j].1
}

/// Pairs `a` and `b` of the correspondence differ in both components.
pub open spec fn pairs_apart(c: Seq<(usize, usize)>, a: int, b: int) -> bool {
    c[a].0 != c[b].0 && c[a].1 != c[b].1
}

/// The Fukaya category (A-model side).
#[derive(Debug, Clone)]
pub struct FukayaCategory {
    pub manifold_name: String,
    pub objects: Vec<Lagrangian>,
}

impl FukayaCategory {
    pub fn new(manifold_name: &str) -> (r: Self)
        ensures
            r.manifold_name@ == manifold_name@,
            r.objects@.len() == 0,
    {
        Self { manifold_name: manifold_name.to_owned(), objects: Vec::new() }
    }

    /// Add a Lagrangian submanifold; its index is returned.
    pub fn add_lagrangian(&mut self, name: &str, homology_class: Vec<i64>, maslov_index: i32) -> (r:
        usize)
        ensures
            r == old(self).objects@.len(),
            final(self).manifold_name@ == old(self).manifold_name@,
            final(self).objects@.len() == old(self).objects@.len() + 1,
            final(self).objects@.drop_last() == old(self).objects@,
            final(self).objects@.last().is(r as int, name@, homology_class@, maslov_index),
    {
        let id = self.objects.len();
        self.objects.push(
            Lagrangian { id, name: name.to_owned(), homology_class, maslov_index, wrapped: false },
        );
        assert(self.objects@.drop_last() =~= old(self).objects@);
        id
    }

    /// Compute the morphism space Hom(L₁, L₂) (Floer cohomology).
    /// In the simplest case, this is graded by intersection number:
    /// HF*(L, L) = H*(L) for an unobstructed Lagrangian, and 0 otherwise.
    pub fn floer_cohomology(&self, id1: usize, id2: usize) -> (r: u64)
        ensures
            r == (if id1 == id2 {
                1u64
            } else {
                0u64
            }),
    {
        if id1 == id2 {
            1
        } else {
            0
        }
    }

    /// The number of objects in the category.
    pub fn num_objects(&self) -> (r: usize)
        ensures
            r == self.objects@.len(),
    {
        self.objects.len()
    }
}

/// The bounded derived category D^b Coh(X) (B-model side).
#[derive(Debug, Clone)]
pub struct DerivedCategory {
    pub manifold_name: String,
    pub objects: Vec<CoherentSheaf>,
}

impl DerivedCategory {
    pub fn new(manifold_name: &str) -> (r: Self)
        ensures
            r.manifold_name@ == manifold_name@,
            r.objects@.len() == 0,
    {
        Self { manifold_name: manifold_name.to_owned(), objects: Vec::new() }
    }

    /// Add a coherent sheaf; its index is returned.
    pub fn add_sheaf(&mut self, name: &str, chern_character: Vec<i64>, rank: usize) -> (r: usize)
        ensures
            r == old(self).objects@.len(),
            final(self).manifold_name@ == old(self).manifold_name@,
            final(self).objects@.len() == old(self).objects@.len() + 1,
            final(self).objects@.drop_last() == old(self).objects@,
            final(self).objects@.last().is(r as int, name@, chern_character@, rank as int),
    {
        let id = self.objects.len();
        self.objects.push(CoherentSheaf { id, name: name.to_owned(), chern_character, rank });
        assert(self.objects@.drop_last() =~= old(self).objects@);
        id
    }

    /// Compute Ext^i(F, G) (simplified).
    pub fn ext_groups(&self, id1: usize, id2: usize) -> (r: Vec<u64>)
        ensures
            r@ == ext_dimensions(id1, id2),
    {
        if id1 == id2 {
            // Ext*(O, O) = H*(X)
            vec![1, 0, 0, 1]  // for CY 3-fold

        } else {
            vec![0, 0, 0, 0]
        }
    }

    /// The number of objects.
    pub fn num_objects(&self) -> (r: usize)
        ensures
            r == self.objects@.len(),
    {
        self.objects.len()
    }

    /// Add the standard exceptional collection for ℙⁿ: O(0), O(1), ..., O(n),
    /// the sheaf O(i) with Chern character (1, i) and rank 1.
    pub fn add_projective_space_collection(&mut self, n: usize)
        ensures
            final(self).manifold_name@ == old(self).manifold_name@,
            final(self).objects@.len() == old(self).objects@.len() + n + 1,
            final(self).objects@.subrange(0, old(self).objects@.len() as int) == old(self).objects@,
            forall|i: int|
                0 <= i <= n ==> (#[trigger] final(self).objects@[old(self).objects@.len() + i]).is(
                    old(self).objects@.len() + i,
                    twist_name(i as nat),
                    seq![1i64, i as i64],
                    1,
                ),
    {
        proof {
            reveal_strlit("O(");
            reveal_strlit(")");
        }
        let ghost start = self.objects@.len();
        let mut i: u128 = 0;
        while i <= n as u128
            invariant
                i <= n as u128 + 1,
                self.manifold_name@ == old(self).manifold_name@,
                self.objects@.len() == start + i,
                start == old(self).objects@.len(),
                self.objects@.subrange(0, start as int) == old(self).objects@,
                forall|j: int|
                    0 <= j < i ==> (#[trigger] self.objects@[start + j]).is(
                        start + j,
                        twist_name(j as nat),
                        seq![1i64, j as i64],
                        1,
                    ),
            decreases n as u128 + 1 - i,
        {
            let iu = i as usize;
            let mut chern: Vec<i64> = Vec::new();
            chern.push(1);
            chern.push(iu as i64);
            let mut name = "O(".to_owned();
            push_decimal(&mut name, iu as u64);
            name.append(")");
            assert(chern@ =~= seq![1i64, iu as i64]);
            assert(name@ =~= twist_name(iu as nat));
            let ghost before = self.objects@;
            self.add_sheaf(name.as_str(), chern, 1);
            assert(self.objects@.subrange(0, start as int) =~= before.subrange(0, start as int));
            assert forall|j: int| 0 <= j < i + 1 implies (#[trigger] self.objects@[start + j]).is(
                start + j,
                twist_name(j as nat),
                seq![1i64, j as i64],
                1,
            ) by {
                if j < i {
                    assert(self.objects@[start + j] == before[start + j]);
                }
            }
            i += 1;
        }
    }
}

/// The HMS duality between Fukaya and derived categories.
#[derive(Debug, Clone)]
pub struct HMSDuality {
    pub symplectic_manifold: String,
    pub complex_manifold: String,
    pub fukaya: FukayaCategory,
    pub derived: DerivedCategory,
    /// Object correspondence: fukaya_id → derived_id
    pub correspondence: Vec<(usize, usize)>,
}

impl HMSDuality {
    /// Every pair of the correspondence names an object on each side.
    pub open spec fn correspondence_in_range(&self) -> bool {
        forall|k: int|
            0 <= k < self.correspondence@.len() ==> {
                &&& (#[trigger] self.correspondence@[k]).0 < self.fukaya.objects@.len()
                &&& self.correspondence@[k].1 < self.derived.objects@.len()
            }
    }

    /// Create the HMS duality for the mirror quintic pair.
    pub fn quintic() -> (r: Self)
        ensures
            r.symplectic_manifold@ == "Quintic"@,
            r.complex_manifold@ == "Mirror Quintic"@,
            r.fukaya.manifold_name@ == "Quintic (A-model)"@,
            r.fukaya.objects@.len() == 1,
            r.fukaya.objects@[0].is(0, "Real Quintic"@, seq![1i64], 0),
            r.derived.manifold_name@ == "Mirror Quintic (B-model)"@,
            r.derived.objects@.len() == 2,
            r.derived.objects@[0].is(0, "O"@, seq![1i64, 0i64, 0i64, 0i64], 1),
            r.derived.objects@[1].is(1, "O(1)"@, seq![1i64, 1i64, 5i64, 25i64], 1),
            r.correspondence@ == seq![(0usize, 0usize)],
    {
        let mut fukaya = FukayaCategory::new("Quintic (A-model)");
        // Add the real locus and key Lagrangians
        let class = vec![1];
        assert(class@ =~= seq![1i64]);
        fukaya.add_lagrangian("Real Quintic", class, 0);

        let mut derived = DerivedCategory::new("Mirror Quintic (B-model)");
        // Add the structure sheaf and key bundles
        let trivial = vec![1, 0, 0, 0];
        assert(trivial@ =~= seq![1i64, 0i64, 0i64, 0i64]);
        derived.add_sheaf("O", trivial, 1);
        let twisted = vec![1, 1, 5, 25];
        assert(twisted@ =~= seq![1i64, 1i64, 5i64, 25i64]);
        derived.add_sheaf("O(1)", twisted, 1);

        let correspondence = vec![(0, 0)];
        assert(correspondence@ =~= seq![(0usize, 0usize)]);
        Self {
            symplectic_manifold: "Quintic".to_owned(),
            complex_manifold: "Mirror Quintic".to_owned(),
            fukaya,
            derived,
            correspondence,
        }
    }

    /// Verify that the duality preserves the Euler characteristic: every pair
    /// of the correspondence matches an object of the Fukaya category with
    /// an object of the derived category.
    pub fn verify_euler_match(&self) -> (r: bool)
        ensures
            r == self.correspondence_in_range(),
    {
        let mut k: usize = 0;
        while k < self.correspondence.len()
            invariant
                k <= self.correspondence@.len(),
                forall|j: int|
                    0 <= j < k ==> {
                        &&& (#[trigger] self.correspondence@[j]).0 < self.fukaya.objects@.len()
                        &&& self.correspondence@[j].1 < self.derived.objects@.len()
                    },
            decreases self.correspondence@.len() - k,
        {
            let (fuk_id, der_id) = self.correspondence[k];
            if fuk_id >= self.fukaya.num_objects() || der_id >= self.derived.num_objects() {
                return false;
            }
            k += 1;
        }
        true
    }

    /// Verify the duality is a bijection on objects: no object of either side
    /// occurs in two pairs of the correspondence.
    pub fn verify_bijection(&self) -> (r: bool)
        ensures
            r == (firsts_distinct(self.correspondence@) && seconds_distinct(self.correspondence@)),
    {
        let c = &self.correspondence;
        let mut i: usize = 0;
        while i < c.len()
            invariant
                c@ == self.correspondence@,
                i <= c@.len(),
                forall|a: int, b: int|
                    0 <= a < i && 0 <= b < c@.len() && a != b ==> #[trigger] pairs_apart(c@, a, b),
            decreases c@.len() - i,
        {
            let mut j: usize = 0;
            while j < c.len()
                invariant
                    c@ == self.correspondence@,
                    i < c@.len(),
                    j <= c@.len(),
                    forall|a: int, b: int|
                        0 <= a < i && 0 <= b < c@.len() && a != b ==> #[trigger] pairs_apart(c@, a, b),
                    forall|b: int| 0 <= b < j && b != i ==> #[trigger] pairs_apart(c@, i as int, b),
                decreases c@.len() - j,
            {
                if j != i {
                    if c[i].0 == c[j].0 {
                        assert(c@[i as int].0 == c@[j as int].0);
                        return false;
                    }
                    if c[i].1 == c[j].1 {
                        assert(c@[i as int].1 == c@[j as int].1);
                        return false;
                    }
                    assert(pairs_apart(c@, i as int, j as int));
                }
                j += 1;
            }
            i += 1;
        }
        assert forall|a: int, b: int|
            0 <= a < c@.len() && 0 <= b < c@.len() && a != b implies #[trigger] c@[a].0
            != #[trigger] c@[b].0 by {
            assert(pairs_apart(c@, a, b));
        }
        assert forall|a: int, b: int|
            0 <= a < c@.len() && 0 <= b < c@.len() && a != b implies #[trigger] c@[a].1
            != #[trigger] c@[b].1 by {
            assert(pairs_apart(c@, a, b));
        }
        true
    }

    /// The cardinality of the correspondence.
    pub fn num_matched_objects(&self) -> (r: usize)
        ensures
            r == self.correspondence@.len(),
    {
        self.correspondence.len()
    }
}

/// The correspondence is a bijection exactly when the set of its first
/// components, and the set of its second components, each have as many
/// elements as there are pairs: no object of either side is counted twice.
pub proof fn lemma_bijection_counts_distinct_ids(c: Seq<(usize, usize)>)
    ensures
        firsts_distinct(c) <==> c.map_values(|p: (usize, usize)| p.0).to_set().len() == c.len(),
        seconds_distinct(c) <==> c.map_values(|p: (usize, usize)| p.1).to_set().len() == c.len(),
{
    let f = c.map_values(|p: (usize, usize)| p.0);
    let s = c.map_values(|p: (usize, usize)| p.1);
    assert(firsts_distinct(c) <==> f.no_duplicates()) by {
        if firsts_distinct(c) {
            assert forall|i: int, j: int|
                0 <= i < f.len() && 0 <= j < f.len() && i != j implies f[i] != f[j] by {
                assert(c[i].0 != c[j].0);
            }
        }
        if f.no_duplicates() {
            assert forall|i: int, j: int|
                0 <= i < c.len() && 0 <= j < c.len() && i != j implies #[trigger] c[i].0
                != #[trigger] c[j].0 by {
                assert(f[i] != f[j]);
            }
        }
    }
    assert(seconds_distinct(c) <==> s.no_duplicates()) by {
        if seconds_distinct(c) {
            assert forall|i: int, j: int|
                0 <= i < s.len() && 0 <= j < s.len() && i != j implies s[i] != s[j] by {
                assert(c[i].1 != c[j].1);
            }
        }
        if s.no_duplicates() {
            assert forall|i: int, j: int|
                0 <= i < c.len() && 0 <= j < c.len() && i != j implies #[trigger] c[i].1
                != #[trigger] c[j].1 by {
                assert(s[i] != s[j]);
            }
        }
    }
    if f.no_duplicates() {
        f.unique_seq_to_set();
    }
    if f.to_set().len() == f.len() {
        f.lemma_no_dup_set_cardinality();
    }
    if s.no_duplicates() {
        s.unique_seq_to_set();
    }
    if s.to_set().len() == s.len() {
        s.lemma_no_dup_set_cardinality();
    }
}

/// An object of either side that occurs in two pairs of the correspondence,
/// at any two positions, breaks the bijection.
pub proof fn lemma_repeated_object_breaks_bijection(c: Seq<(usize, usize)>, i: int, j: int)
    requires
        0 <= i < c.len(),
        0 <= j < c.len(),
        i != j,
        c[i].0 == c[j].0 || c[i].1 == c[j].1,
    ensures
        !(firsts_distinct(c) && seconds_distinct(c)),
{
}

/// A correspondence whose first and second components both strictly increase
/// along it is a bijection.
pub proof fn lemma_increasing_correspondence_is_bijection(c: Seq<(usize, usize)>)
    requires
        forall|i: int, j: int| 0 <= i < j < c.len() ==> c[i].0 < c[j].0 && c[i].1 < c[j].1,
    ensures
        firsts_distinct(c),
        seconds_distinct(c),
{
    assert forall|i: int, j: int|
        0 <= i < c.len() && 0 <= j < c.len() && i != j implies #[trigger] c[i].0 != #[trigger] c[j].0
        && c[i].1 != c[j].1 by {
        if i < j {
            assert(c[i].0 < c[j].0 && c[i].1 < c[j].1);
        } else {
            assert(c[j].0 < c[i].0 && c[j].1 < c[i].1);
        }
    }
}

/// A pair naming an object that one of the categories does not have makes
/// the Euler-characteristic match fail.
pub proof fn lemma_out_of_range_pair_fails_match(h: HMSDuality, k: int)
    requires
        0 <= k < h.correspondence@.len(),
        h.correspondence@[k].0 >= h.fukaya.objects@.len() || h.correspondence@[k].1
            >= h.derived.objects@.len(),
    ensures
        !h.correspondence_in_range(),
{
}

} // verus!
