use vstd::prelude::*;

use crate::color::Color;
use crate::random::random_index_upto;

verus! {

/// The figure printed inside the numbered spot of a ball.
#[derive(Clone, Copy, Debug, PartialEq, Eq, Structural)]
pub enum NumberType {
    /// A ring, the digit "0".
    Circle,
    /// A bar, the digit "1".
    Line,
}

/// A matte (diffuse) material of one colour.
pub struct Lambertian {
    albedo: Color,
}

impl View for Lambertian {
    type V = Color;

    closed spec fn view(&self) -> Color {
        self.albedo
    }
}

impl Lambertian {
    /// A matte material with albedo `a`.
    pub fn new(a: Color) -> (l: Lambertian)
        ensures
            l@ == a,
    {
        Lambertian { albedo: a }
    }

    /// The albedo of the material.
    pub fn albedo(&self) -> (c: Color)
        ensures
            c == self@,
    {
        self.albedo
    }
}

/// The size of the Perlin lattice tables.
pub const PERLIN_POINT_COUNT: usize = 256;

/// `s` is a permutation of `0..256`: it has 256 entries, each below 256,
/// no two equal, and every value below 256 occurs.
pub open spec fn is_lattice_permutation(s: Seq<usize>) -> bool {
    &&& s.len() == PERLIN_POINT_COUNT
    &&& forall|k: int| 0 <= k < s.len() ==> #[trigger] s[k] < PERLIN_POINT_COUNT
    &&& forall|a: int, b: int| 0 <= a < s.len() && 0 <= b < s.len() && a != b ==> s[a] != s[b]
    &&& forall|v: usize| v < PERLIN_POINT_COUNT ==> #[trigger] occurs_in(s, v)
}

/// The value `v` is an entry of `s`.
pub open spec fn occurs_in(s: Seq<usize>, v: usize) -> bool {
    exists|k: int| 0 <= k < s.len() && s[k] == v
}

/// The lattice tables of Perlin noise: three permutations of `0..256` that
/// hash an integer lattice point to one of 256 gradient slots.
pub struct Perlin {
    perm_x: Vec<usize>,
    perm_y: Vec<usize>,
    perm_z: Vec<usize>,
}

impl Perlin {
    #[verifier::type_invariant]
    spec fn tables_are_permutations(self) -> bool {
        &&& is_lattice_permutation(self.perm_x@)
        &&& is_lattice_permutation(self.perm_y@)
        &&& is_lattice_permutation(self.perm_z@)
    }
}

impl View for Perlin {
    type V = (Seq<usize>, Seq<usize>, Seq<usize>);

    closed spec fn view(&self) -> (Seq<usize>, Seq<usize>, Seq<usize>) {
        (self.perm_x@, self.perm_y@, self.perm_z@)
    }
}

/// The low eight bits of a lattice coordinate, as a table index.
pub open spec fn lattice_slot(i: i32) -> int {
    (i & 255) as int
}

/// Exchanging two entries of a permutation keeps it a permutation.
proof fn lemma_swap_keeps_permutation(s: Seq<usize>, a: int, b: int)
    requires
        is_lattice_permutation(s),
        0 <= a < s.len(),
        0 <= b < s.len(),
    ensures
        is_lattice_permutation(s.update(a, s[b]).update(b, s[a])),
{
    let t = s.update(a, s[b]).update(b, s[a]);
    assert forall|k: int| 0 <= k < t.len() implies #[trigger] t[k] < PERLIN_POINT_COUNT by {
        if k == b {
        } else if k == a {
        } else {
            assert(t[k] == s[k]);
        }
    }
    assert forall|x: int, y: int| 0 <= x < t.len() && 0 <= y < t.len() && x != y implies t[x] != t[y] by {
        let sx = if x == b { a } else if x == a { b } else { x };
        let sy = if y == b { a } else if y == a { b } else { y };
        assert(t[x] == s[sx]);
        assert(t[y] == s[sy]);
    }
    assert forall|v: usize| v < PERLIN_POINT_COUNT implies #[trigger] occurs_in(t, v) by {
        assert(occurs_in(s, v));
        let k = choose|k: int| 0 <= k < s.len() && s[k] == v;
        let w = if k == a { b } else if k == b { a } else { k };
        assert(t[w] == v);
    }
}

/// The identity table `0, 1, ..., 255`.
pub open spec fn identity_table() -> Seq<usize> {
    Seq::new(PERLIN_POINT_COUNT as nat, |k: int| k as usize)
}

/// `s` with its entries at `a` and `b` exchanged.
pub open spec fn swapped(s: Seq<usize>, a: int, b: int) -> Seq<usize> {
    s.update(a, s[b]).update(b, s[a])
}

/// Swap partners for a Fisher-Yates shuffle of 256 entries: 255 draws, the
/// one for step `i` (`1 <= i <= 255`) at index `i - 1` and at most `i`.
pub open spec fn admissible_swap_targets(t: Seq<usize>) -> bool {
    &&& t.len() == PERLIN_POINT_COUNT - 1
    &&& forall|k: int| 0 <= k < t.len() ==> #[trigger] t[k] <= k + 1
}

/// The table after the Fisher-Yates steps `255, 254, ..., i` on the identity
/// table, step `j` exchanging the entries at `j` and `t[j - 1]`.
pub open spec fn shuffle_from(t: Seq<usize>, i: int) -> Seq<usize>
    decreases PERLIN_POINT_COUNT - i,
{
    if i < 1 || i >= PERLIN_POINT_COUNT {
        identity_table()
    } else {
        swapped(shuffle_from(t, i + 1), i, t[i - 1] as int)
    }
}

/// The permutation that a Fisher-Yates shuffle with swap partners `t` makes
/// of `0..256`: steps `i = 255` down to `1`, each exchanging entries `i` and
/// `t[i - 1]`.
pub open spec fn fisher_yates(t: Seq<usize>) -> Seq<usize> {
    shuffle_from(t, 1)
}

/// The identity table is a permutation.
proof fn lemma_identity_is_permutation()
    ensures
        is_lattice_permutation(identity_table()),
{
    let s = identity_table();
    assert forall|v: usize| v < PERLIN_POINT_COUNT implies #[trigger] occurs_in(s, v) by {
        assert(s[v as int] == v);
    }
}

proof fn lemma_shuffle_from_is_permutation(t: Seq<usize>, i: int)
    requires
        admissible_swap_targets(t),
    ensures
        is_lattice_permutation(shuffle_from(t, i)),
    decreases PERLIN_POINT_COUNT - i,
{
    if i < 1 || i >= PERLIN_POINT_COUNT {
        lemma_identity_is_permutation();
    } else {
        lemma_shuffle_from_is_permutation(t, i + 1);
        assert(t[i - 1] <= i);
        lemma_swap_keeps_permutation(shuffle_from(t, i + 1), i, t[i - 1] as int);
    }
}

/// Every Fisher-Yates shuffle with admissible swap partners is a
/// permutation of `0..256`.
pub proof fn lemma_fisher_yates_is_permutation(t: Seq<usize>)
    requires
        admissible_swap_targets(t),
    ensures
        is_lattice_permutation(fisher_yates(t)),
{
    lemma_shuffle_from_is_permutation(t, 1);
}

/// Shuffles `0..256` with the given swap partners (see `fisher_yates`).
pub fn fisher_yates_permutation(targets: &[usize]) -> (p: Vec<usize>)
    requires
        admissible_swap_targets(targets@),
    ensures
        p@ == fisher_yates(targets@),
        is_lattice_permutation(p@),
{
    let mut p: Vec<usize> = Vec::new();
    let mut k: usize = 0;
    while k < PERLIN_POINT_COUNT
        invariant
            k <= PERLIN_POINT_COUNT,
            p@.len() == k,
            forall|j: int| 0 <= j < k ==> #[trigger] p@[j] == j,
        decreases PERLIN_POINT_COUNT - k,
    {
        p.push(k);
        k = k + 1;
    }
    assert(p@ =~= identity_table());
    proof {
        lemma_identity_is_permutation();
    }
    let mut i: usize = PERLIN_POINT_COUNT - 1;
    while i > 0
        invariant
            i < PERLIN_POINT_COUNT,
            admissible_swap_targets(targets@),
            p@ == shuffle_from(targets@, i + 1),
            is_lattice_permutation(p@),
        decreases i,
    {
        let target = targets[i - 1];
        let a = p[i];
        let b = p[target];
        proof {
            lemma_swap_keeps_permutation(p@, i as int, target as int);
        }
        p.set(i, b);
        p.set(target, a);
        assert(p@ =~= swapped(shuffle_from(targets@, i + 1), i as int, target as int));
        i = i - 1;
    }
    p
}

/// A uniformly shuffled permutation of `0..256`: the swap partner of step
/// `i` is drawn at random from `0..=i`.
fn perlin_generate_perm() -> (p: Vec<usize>)
    ensures
        exists|t: Seq<usize>| admissible_swap_targets(t) && p@ == fisher_yates(t),
        is_lattice_permutation(p@),
{
    let mut targets: Vec<usize> = Vec::new();
    let mut k: usize = 0;
    while k < PERLIN_POINT_COUNT - 1
        invariant
            k <= PERLIN_POINT_COUNT - 1,
            targets@.len() == k,
            forall|j: int| 0 <= j < k ==> #[trigger] targets@[j] <= j + 1,
        decreases PERLIN_POINT_COUNT - 1 - k,
    {
        targets.push(random_index_upto(k + 1));
        k = k + 1;
    }
    fisher_yates_permutation(targets.as_slice())
}

impl Perlin {
    /// Fresh lattice tables: three independently shuffled permutations of
    /// `0..256`, each the Fisher-Yates shuffle for some admissible draw of
    /// swap partners.
    pub fn new() -> (p: Perlin)
        ensures
            exists|t: Seq<usize>| admissible_swap_targets(t) && p@.0 == fisher_yates(t),
            exists|t: Seq<usize>| admissible_swap_targets(t) && p@.1 == fisher_yates(t),
            exists|t: Seq<usize>| admissible_swap_targets(t) && p@.2 == fisher_yates(t),
            is_lattice_permutation(p@.0),
            is_lattice_permutation(p@.1),
            is_lattice_permutation(p@.2),
    {
        Perlin {
            perm_x: perlin_generate_perm(),
            perm_y: perlin_generate_perm(),
            perm_z: perlin_generate_perm(),
        }
    }

    /// The gradient slot of the lattice point `(i, j, k)`:
    /// `perm_x[i & 255] ^ perm_y[j & 255] ^ perm_z[k & 255]`, always below 256.
    pub fn lattice_index(&self, i: i32, j: i32, k: i32) -> (idx: usize)
        ensures
            idx == self@.0[lattice_slot(i)] ^ self@.1[lattice_slot(j)] ^ self@.2[lattice_slot(k)],
            idx < PERLIN_POINT_COUNT,
    {
        proof {
            use_type_invariant(self);
        }
        assert(0 <= i & 255 < 256) by (bit_vector);
        assert(0 <= j & 255 < 256) by (bit_vector);
        assert(0 <= k & 255 < 256) by (bit_vector);
        let x = self.perm_x[(i & 255) as usize];
        let y = self.perm_y[(j & 255) as usize];
        let z = self.perm_z[(k & 255) as usize];
        assert(x < 256 && y < 256 && z < 256 ==> x ^ y ^ z < 256) by (bit_vector);
        x ^ y ^ z
    }
}

/// The lattice repeats every 256 cells along each axis: a coordinate and
/// the one 256 cells further select the same table slot.
pub proof fn lemma_lattice_is_periodic(i: i32)
    requires
        i <= i32::MAX - 256,
    ensures
        lattice_slot((i + 256) as i32) == lattice_slot(i),
{
    let j = (i + 256) as i32;
    assert(j == i + 256);
    assert(i <= 0x7fff_feff && j == i + 256 ==> j & 255 == i & 255) by (bit_vector);
}

} // verus!
