//! Tables of Hodge numbers: their mathematical reading, the sums taken over
//! them, and the symmetries that the `verify_*` operations of this crate test.

use vstd::prelude::*;

verus! {

/// A table of Hodge numbers read as a sequence of rows.
pub open spec fn table_view(rows: &Vec<Vec<u64>>) -> Seq<Seq<u64>> {
    rows@.map_values(|r: Vec<u64>| r@)
}

/// Row `p` of the table has an entry in column `q`.
pub open spec fn has_entry(g: Seq<Seq<u64>>, p: int, q: int) -> bool {
    0 <= p < g.len() && 0 <= q < g[p].len()
}

/// The entry in row `p`, column `q`, if the table has one.
pub open spec fn entry(g: Seq<Seq<u64>>, p: int, q: int) -> Option<u64> {
    if has_entry(g, p, q) {
        Some(g[p][q])
    } else {
        None
    }
}

/// The entry in row `p`, column `q`, with a missing entry read as zero.
pub open spec fn entry_or_zero(g: Seq<Seq<u64>>, p: int, q: int) -> u64 {
    if has_entry(g, p, q) {
        g[p][q]
    } else {
        0
    }
}

/// `f(0) + f(1) + ... + f(m - 1)`.
pub open spec fn sum_to(f: spec_fn(int) -> int, m: int) -> int
    decreases m,
{
    if m <= 0 {
        0
    } else {
        sum_to(f, m - 1) + f(m - 1)
    }
}

/// Complex conjugation symmetry `h^{p,q} = h^{q,p}` for `0 <= p, q <= n`.
pub open spec fn conjugation_symmetric(g: Seq<Seq<u64>>, n: int) -> bool {
    forall|p: int, q: int|
        0 <= p <= n && 0 <= q <= n ==> #[trigger] entry_or_zero(g, p, q) == entry_or_zero(g, q, p)
}

/// Serre duality `h^{p,q} = h^{n-p,n-q}` for `0 <= p, q <= n`.
pub open spec fn serre_symmetric(g: Seq<Seq<u64>>, n: int) -> bool {
    forall|p: int, q: int|
        0 <= p <= n && 0 <= q <= n ==> #[trigger] entry_or_zero(g, p, q) == entry_or_zero(
            g,
            n - p,
            n - q,
        )
}

/// The term of row `p` in the Betti number `b_k`: `h^{p,k-p}` when `(p, k - p)`
/// lies in the square `[0, n] x [0, n]`, else zero.
pub open spec fn betti_term(g: Seq<Seq<u64>>, n: int, k: int, p: int) -> int {
    if 0 <= p <= n && 0 <= k - p <= n {
        entry_or_zero(g, p, k - p) as int
    } else {
        0
    }
}

/// The Betti number `b_k = sum of h^{p,q} over p + q = k, 0 <= p, q <= n`.
pub open spec fn betti(g: Seq<Seq<u64>>, n: int, k: int) -> int {
    sum_to(|p: int| betti_term(g, n, k, p), n + 1)
}

/// Hard Lefschetz symmetry of the Betti numbers: `b_k = b_{2n-k}` for `0 <= k <= 2n`.
pub open spec fn betti_symmetric(g: Seq<Seq<u64>>, n: int) -> bool {
    forall|k: int| 0 <= k <= 2 * n ==> #[trigger] betti(g, n, k) == betti(g, n, 2 * n - k)
}

/// Removing the first term of a sum.
pub proof fn lemma_sum_peel_front(f: spec_fn(int) -> int, m: int)
    requires
        m >= 1,
    ensures
        sum_to(f, m) == f(0) + sum_to(|i: int| f(i + 1), m - 1),
    decreases m,
{
    let h = |i: int| f(i + 1);
    if m > 1 {
        lemma_sum_peel_front(f, m - 1);
        assert(sum_to(h, m - 1) == sum_to(h, m - 2) + h(m - 2));
    } else {
        assert(sum_to(f, 0) == 0);
        assert(sum_to(h, 0) == 0);
    }
}

/// Two sums whose terms agree are equal.
pub proof fn lemma_sum_congruent(f: spec_fn(int) -> int, g: spec_fn(int) -> int, m: int)
    requires
        forall|i: int| 0 <= i < m ==> #[trigger] f(i) == g(i),
    ensures
        sum_to(f, m) == sum_to(g, m),
    decreases m,
{
    if m > 0 {
        lemma_sum_congruent(f, g, m - 1);
    }
}

/// A sum taken in the reverse order has the same value.
pub proof fn lemma_sum_reflect(f: spec_fn(int) -> int, g: spec_fn(int) -> int, m: int)
    requires
        forall|i: int| 0 <= i < m ==> #[trigger] f(i) == g(m - 1 - i),
    ensures
        sum_to(f, m) == sum_to(g, m),
    decreases m,
{
    if m > 0 {
        lemma_sum_peel_front(g, m);
        let h = |i: int| g(i + 1);
        assert forall|i: int| 0 <= i < m - 1 implies #[trigger] f(i) == h(m - 2 - i) by {}
        lemma_sum_reflect(f, h, m - 1);
    }
}

/// Serre duality forces the Hard Lefschetz symmetry of the Betti numbers:
/// when `h^{p,q} = h^{n-p,n-q}` for all `0 <= p, q <= n`, then
/// `b_k = b_{2n-k}` for all `0 <= k <= 2n`.
pub proof fn lemma_serre_gives_betti_symmetry(g: Seq<Seq<u64>>, n: int)
    requires
        n >= 0,
        serre_symmetric(g, n),
    ensures
        betti_symmetric(g, n),
{
    assert forall|k: int| 0 <= k <= 2 * n implies #[trigger] betti(g, n, k) == betti(
        g,
        n,
        2 * n - k,
    ) by {
        let f = |p: int| betti_term(g, n, k, p);
        let h = |p: int| betti_term(g, n, 2 * n - k, p);
        assert forall|i: int| 0 <= i < n + 1 implies #[trigger] f(i) == h(n + 1 - 1 - i) by {
            if 0 <= i <= n && 0 <= k - i <= n {
                assert(entry_or_zero(g, i, k - i) == entry_or_zero(g, n - i, n - (k - i)));
            }
        }
        lemma_sum_reflect(f, h, n + 1);
    }
}

/// Reads `h^{p,q}`, a missing entry as zero.
pub fn entry_or_zero_of(rows: &Vec<Vec<u64>>, p: usize, q: usize) -> (r: u64)
    ensures
        r == entry_or_zero(table_view(rows), p as int, q as int),
{
    if p < rows.len() && q < rows[p].len() {
        rows[p][q]
    } else {
        0
    }
}

/// Reads `h^{p,q}`, if the table has it.
pub fn entry_of(rows: &Vec<Vec<u64>>, p: usize, q: usize) -> (r: Option<u64>)
    ensures
        r == entry(table_view(rows), p as int, q as int),
{
    if p < rows.len() && q < rows[p].len() {
        Some(rows[p][q])
    } else {
        None
    }
}

/// A sum of terms that are never negative grows with its length.
pub proof fn lemma_sum_monotone(f: spec_fn(int) -> int, a: int, b: int)
    requires
        0 <= a <= b,
        forall|i: int| 0 <= i < b ==> #[trigger] f(i) >= 0,
    ensures
        sum_to(f, a) <= sum_to(f, b),
    decreases b - a,
{
    if a < b {
        lemma_sum_monotone(f, a, b - 1);
    }
}

/// A copy of a table of Hodge numbers, row by row.
pub fn copy_table(rows: &Vec<Vec<u64>>) -> (r: Vec<Vec<u64>>)
    ensures
        table_view(&r) == table_view(rows),
{
    let mut out: Vec<Vec<u64>> = Vec::new();
    let mut p: usize = 0;
    while p < rows.len()
        invariant
            p <= rows.len(),
            out@.len() == p,
            forall|i: int| 0 <= i < p ==> (#[trigger] out@[i])@ == rows@[i]@,
        decreases rows.len() - p,
    {
        let src = &rows[p];
        let mut row: Vec<u64> = Vec::new();
        let mut q: usize = 0;
        while q < src.len()
            invariant
                q <= src.len(),
                row@ == src@.subrange(0, q as int),
            decreases src.len() - q,
        {
            row.push(src[q]);
            q += 1;
            assert(row@ =~= src@.subrange(0, q as int));
        }
        assert(row@ =~= src@);
        out.push(row);
        p += 1;
    }
    assert(table_view(&out) =~= table_view(rows));
    out
}

/// Checks Serre duality `h^{p,q} = h^{n-p,n-q}` over `0 <= p, q <= n`.
pub fn serre_holds(rows: &Vec<Vec<u64>>, n: usize) -> (r: bool)
    ensures
        r == serre_symmetric(table_view(rows), n as int),
{
    let ghost g = table_view(rows);
    let mut p: u128 = 0;
    while p <= n as u128
        invariant
            g == table_view(rows),
            p <= n as u128 + 1,
            forall|a: int, b: int|
                0 <= a < p && 0 <= b <= n ==> #[trigger] entry_or_zero(g, a, b)
                    == entry_or_zero(g, n - a, n - b),
        decreases n as u128 + 1 - p,
    {
        let pu = p as usize;
        let mut q: u128 = 0;
        while q <= n as u128
            invariant
                g == table_view(rows),
                p <= n as u128,
                pu == p,
                q <= n as u128 + 1,
                forall|a: int, b: int|
                    0 <= a < p && 0 <= b <= n ==> #[trigger] entry_or_zero(g, a, b)
                        == entry_or_zero(g, n - a, n - b),
                forall|b: int|
                    0 <= b < q ==> #[trigger] entry_or_zero(g, p as int, b) == entry_or_zero(
                        g,
                        n - p,
                        n - b,
                    ),
            decreases n as u128 + 1 - q,
        {
            let qu = q as usize;
            let hpq = entry_or_zero_of(rows, pu, qu);
            let hnqnp = entry_or_zero_of(rows, n - pu, n - qu);
            if hpq != hnqnp {
                return false;
            }
            q += 1;
        }
        p += 1;
    }
    true
}

/// Checks conjugation symmetry `h^{p,q} = h^{q,p}` over `0 <= p, q <= n`.
pub fn conjugation_holds(rows: &Vec<Vec<u64>>, n: usize) -> (r: bool)
    ensures
        r == conjugation_symmetric(table_view(rows), n as int),
{
    let ghost g = table_view(rows);
    let mut p: u128 = 0;
    while p <= n as u128
        invariant
            g == table_view(rows),
            p <= n as u128 + 1,
            forall|a: int, b: int|
                0 <= a < p && 0 <= b <= n ==> #[trigger] entry_or_zero(g, a, b)
                    == entry_or_zero(g, b, a),
        decreases n as u128 + 1 - p,
    {
        let pu = p as usize;
        let mut q: u128 = 0;
        while q <= n as u128
            invariant
                g == table_view(rows),
                p <= n as u128,
                pu == p,
                q <= n as u128 + 1,
                forall|a: int, b: int|
                    0 <= a < p && 0 <= b <= n ==> #[trigger] entry_or_zero(g, a, b)
                        == entry_or_zero(g, b, a),
                forall|b: int|
                    0 <= b < q ==> #[trigger] entry_or_zero(g, p as int, b) == entry_or_zero(
                        g,
                        b,
                        p as int,
                    ),
            decreases n as u128 + 1 - q,
        {
            let qu = q as usize;
            let hpq = entry_or_zero_of(rows, pu, qu);
            let hqp = entry_or_zero_of(rows, qu, pu);
            if hpq != hqp {
                return false;
            }
            q += 1;
        }
        p += 1;
    }
    true
}

/// Computes the Betti number `b_k`: the sum of `h^{p,q}` over `p + q = k`,
/// `0 <= p, q <= n`.
pub fn betti_of(rows: &Vec<Vec<u64>>, n: usize, k: usize) -> (r: u64)
    requires
        betti(table_view(rows), n as int, k as int) <= u64::MAX,
    ensures
        r == betti(table_view(rows), n as int, k as int),
{
    let ghost g = table_view(rows);
    let ghost f = |p: int| betti_term(g, n as int, k as int, p);
    let mut acc: u64 = 0;
    let mut p: u128 = 0;
    while p <= n as u128
        invariant
            g == table_view(rows),
            f == (|p: int| betti_term(g, n as int, k as int, p)),
            p <= n as u128 + 1,
            acc == sum_to(f, p as int),
            sum_to(f, n + 1) <= u64::MAX,
        decreases n as u128 + 1 - p,
    {
        let pu = p as usize;
        proof {
            assert forall|i: int| 0 <= i < n + 1 implies #[trigger] f(i) >= 0 by {}
            lemma_sum_monotone(f, p as int + 1, n + 1);
            assert(sum_to(f, p as int + 1) == sum_to(f, p as int) + f(p as int));
        }
        if pu <= k && k - pu <= n {
            let v = entry_or_zero_of(rows, pu, k - pu);
            acc = acc + v;
        }
        p += 1;
    }
    acc
}

/// The contribution `(-1)^{p+q} h^{p,q}` of one entry to the Euler
/// characteristic, the Hodge number taken as a signed 64-bit integer.
pub open spec fn euler_term(g: Seq<Seq<u64>>, p: int, q: int) -> int {
    let v = (entry_or_zero(g, p, q) as i64) as int;
    if (p + q) % 2 == 0 {
        v
    } else {
        -v
    }
}

/// The first `m` contributions of row `p`.
pub open spec fn euler_row(g: Seq<Seq<u64>>, p: int, m: int) -> int {
    sum_to(|q: int| euler_term(g, p, q), m)
}

/// The contributions of the first `m` rows, each over `0 <= q <= n`.
pub open spec fn euler_rows(g: Seq<Seq<u64>>, n: int, m: int) -> int {
    sum_to(|p: int| euler_row(g, p, n + 1), m)
}

/// The Euler characteristic `sum over 0 <= p, q <= n of (-1)^{p+q} h^{p,q}`.
pub open spec fn euler_total(g: Seq<Seq<u64>>, n: int) -> int {
    euler_rows(g, n, n + 1)
}

/// The running sum of the Euler characteristic up to and including entry `(p, q)`,
/// the entries taken row by row.
pub open spec fn euler_prefix(g: Seq<Seq<u64>>, n: int, p: int, q: int) -> int {
    euler_rows(g, n, p) + euler_row(g, p, q + 1)
}

/// Every step of the row-by-row sum of the Euler characteristic stays in `i64`.
pub open spec fn euler_in_range(g: Seq<Seq<u64>>, n: int) -> bool {
    forall|p: int, q: int|
        0 <= p <= n && 0 <= q <= n ==> {
            &&& i64::MIN <= #[trigger] euler_prefix(g, n, p, q) <= i64::MAX
            &&& (p + q) % 2 != 0 ==> (entry_or_zero(g, p, q) as i64) != i64::MIN
        }
}

/// The contributions of the first `m` rows of a ragged table, each row over
/// all of its own entries.
pub open spec fn ragged_euler_rows(g: Seq<Seq<u64>>, m: int) -> int {
    sum_to(|p: int| euler_row(g, p, g[p].len() as int), m)
}

/// The Euler characteristic `Σ (-1)^{p+q} h^{p,q}` of a ragged table, over
/// every entry that it holds.
pub open spec fn ragged_euler_total(g: Seq<Seq<u64>>) -> int {
    ragged_euler_rows(g, g.len() as int)
}

/// The running sum of the ragged Euler characteristic up to and including
/// entry `(p, q)`, the entries taken row by row.
pub open spec fn ragged_euler_prefix(g: Seq<Seq<u64>>, p: int, q: int) -> int {
    ragged_euler_rows(g, p) + euler_row(g, p, q + 1)
}

/// Every step of the row-by-row sum of the ragged Euler characteristic stays in `i64`.
pub open spec fn ragged_euler_in_range(g: Seq<Seq<u64>>) -> bool {
    forall|p: int, q: int|
        0 <= p < g.len() && 0 <= q < g[p].len() ==> {
            &&& i64::MIN <= #[trigger] ragged_euler_prefix(g, p, q) <= i64::MAX
            &&& (p + q) % 2 != 0 ==> (g[p][q] as i64) != i64::MIN
        }
}

/// Computes the Euler characteristic `Σ (-1)^{p+q} h^{p,q}` over every entry
/// of a ragged table.
pub fn ragged_euler_of(rows: &Vec<Vec<u64>>) -> (r: i64)
    requires
        ragged_euler_in_range(table_view(rows)),
    ensures
        r == ragged_euler_total(table_view(rows)),
{
    let ghost g = table_view(rows);
    let mut chi: i64 = 0;
    let mut p: usize = 0;
    while p < rows.len()
        invariant
            g == table_view(rows),
            ragged_euler_in_range(g),
            p <= rows@.len(),
            chi == ragged_euler_rows(g, p as int),
        decreases rows@.len() - p,
    {
        let row = &rows[p];
        assert(row@ == g[p as int]);
        let mut q: usize = 0;
        while q < row.len()
            invariant
                g == table_view(rows),
                ragged_euler_in_range(g),
                p < rows@.len(),
                row@ == g[p as int],
                q <= row@.len(),
                chi == ragged_euler_rows(g, p as int) + euler_row(g, p as int, q as int),
            decreases row@.len() - q,
        {
            let v = row[q] as i64;
            proof {
                assert(i64::MIN <= ragged_euler_prefix(g, p as int, q as int) <= i64::MAX);
                assert(euler_row(g, p as int, q as int + 1) == euler_row(g, p as int, q as int)
                    + euler_term(g, p as int, q as int));
                assert(has_entry(g, p as int, q as int));
                assert((p % 2 == q % 2) == ((p + q) % 2 == 0)) by (nonlinear_arith);
            }
            let term = if p % 2 == q % 2 {
                v
            } else {
                -v
            };
            chi = chi + term;
            q += 1;
        }
        proof {
            assert(ragged_euler_rows(g, p as int + 1) == ragged_euler_rows(g, p as int) + euler_row(
                g,
                p as int,
                g[p as int].len() as int,
            ));
        }
        p += 1;
    }
    chi
}

/// A table that differs from its transpose at any position `(p, q)` of the
/// square `[0, n] x [0, n]` fails the conjugation check, wherever in the
/// square that position lies.
pub proof fn lemma_conjugation_rejects_asymmetry(g: Seq<Seq<u64>>, n: int, p: int, q: int)
    requires
        0 <= p <= n,
        0 <= q <= n,
        entry_or_zero(g, p, q) != entry_or_zero(g, q, p),
    ensures
        !conjugation_symmetric(g, n),
{
}

/// A table that equals its transpose on the square `[0, n] x [0, n]` passes
/// the conjugation check.
pub proof fn lemma_conjugation_accepts_symmetric(g: Seq<Seq<u64>>, n: int)
    requires
        forall|p: int, q: int| 0 <= p <= n && 0 <= q <= n ==> g[p][q] == g[q][p],
        n < g.len(),
        forall|p: int| 0 <= p <= n ==> #[trigger] g[p].len() > n,
    ensures
        conjugation_symmetric(g, n),
{
    assert forall|p: int, q: int| 0 <= p <= n && 0 <= q <= n implies #[trigger] entry_or_zero(
        g,
        p,
        q,
    ) == entry_or_zero(g, q, p) by {
        assert(g[p].len() > n && g[q].len() > n);
        assert(g[p][q] == g[q][p]);
    }
}

/// A table whose entry at `(p, q)` differs from the one at `(n - p, n - q)`
/// fails the Serre duality check, for every position of the square.
pub proof fn lemma_serre_rejects_asymmetry(g: Seq<Seq<u64>>, n: int, p: int, q: int)
    requires
        0 <= p <= n,
        0 <= q <= n,
        entry_or_zero(g, p, q) != entry_or_zero(g, n - p, n - q),
    ensures
        !serre_symmetric(g, n),
{
}

/// A table with `b_k != b_{2n-k}` for some `0 <= k <= 2n` fails the Hard
/// Lefschetz check.
pub proof fn lemma_lefschetz_rejects_asymmetry(g: Seq<Seq<u64>>, n: int, k: int)
    requires
        0 <= k <= 2 * n,
        betti(g, n, k) != betti(g, n, 2 * n - k),
    ensures
        !betti_symmetric(g, n),
{
}

/// A sum of zeros is zero.
proof fn lemma_sum_of_zeros(f: spec_fn(int) -> int, m: int)
    requires
        forall|i: int| 0 <= i < m ==> #[trigger] f(i) == 0,
    ensures
        sum_to(f, m) == 0,
    decreases m,
{
    if m > 0 {
        lemma_sum_of_zeros(f, m - 1);
    }
}

/// The extreme Betti numbers are single Hodge numbers: `b_0 = h^{0,0}` and
/// `b_{2n} = h^{n,n}`.
pub proof fn lemma_betti_ends(g: Seq<Seq<u64>>, n: int)
    requires
        n >= 0,
    ensures
        betti(g, n, 0) == entry_or_zero(g, 0, 0),
        betti(g, n, 2 * n) == entry_or_zero(g, n, n),
{
    let f = |p: int| betti_term(g, n, 0, p);
    lemma_sum_peel_front(f, n + 1);
    lemma_sum_of_zeros(|i: int| f(i + 1), n);
    let h = |p: int| betti_term(g, n, 2 * n, p);
    assert(sum_to(h, n + 1) == sum_to(h, n) + h(n));
    lemma_sum_of_zeros(h, n);
}

} // verus!
