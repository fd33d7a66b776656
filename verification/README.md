# lau-mirror-symmetry

Mirror symmetry — the duality between symplectic and complex geometry —
as a verified library: Calabi-Yau manifolds and their Hodge diamonds,
Gromov-Witten invariants, quantum cohomology rings, mirror maps,
homological mirror symmetry, the monodromy of Picard-Fuchs equations, and
agent dualities.

Every operation in `src/` carries a contract that states its result, and the
laws of the structures are proved beside them, among others:

- the mirror of the threefold built from `(h^{1,1}, h^{2,1})` is the one built
  from `(h^{2,1}, h^{1,1})`, its Euler characteristic is negated, and
  mirroring twice gives the threefold back (`calabi_yau`, `hodge`);
- every Calabi-Yau threefold satisfies the Calabi-Yau conditions, Serre
  duality and complex conjugation symmetry, and Serre duality forces the Hard
  Lefschetz symmetry of the Betti numbers (`calabi_yau`, `grid`, `hodge`);
- the Euler characteristic read off the diamond is `2 (h^{1,1} - h^{2,1})`;
- the mirror map of every threefold is an involution, and its instanton
  numbers agree with the Gromov-Witten invariants of the quintic
  (`mirror_map`);
- addition of curve classes is commutative and associative with the zero
  class as its unit, degrees scale by `|n|` and satisfy the triangle
  inequality, and a table reads back what was stored (`gromov_witten`);
- unipotent monodromy has determinant 1 (`picard_fuchs`);
- every CY-motivated agent duality passes the full duality check
  (`agent_duality`).

Layout:

- `src/` — the library, verified with Verus.
- `tests/` — tests of the library on concrete values.
- `app/` — serializable (serde) forms of the library's types, converting to
  and from them, and the parts of the API that compute in floating point:
  quantum products of polynomials with real coefficients, the mirror map's
  series and Yukawa couplings, Picard-Fuchs periods, agent performance
  corrections and morphism matrices.
