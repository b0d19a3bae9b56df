use vstd::prelude::*;

verus! {

/// The 32-bit value that `squirrel_noise5::squirrel_noise5` gives for an
/// index and a seed. The mixing itself is not restated here; it is a fixed
/// function of the two arguments.
pub uninterp spec fn squirrel_noise5_value(index: u32, seed: u32) -> u32;

/// Calls `squirrel_noise5::squirrel_noise5`, a stateless bit mixer built from
/// wrapping multiplications, additions and xor-shifts of its two arguments.
/// The contract only gives that result its name; nothing is claimed about
/// the bits.
#[verifier::external_body]
fn squirrel_hash(index: u32, seed: u32) -> (r: u32)
    ensures
        r == squirrel_noise5_value(index, seed),
{
    squirrel_noise5::squirrel_noise5(index, seed)
}

/// Whether the value `v` stands at some position of `t`.
pub open spec fn occurs(t: Seq<usize>, v: int) -> bool {
    exists|i: int| 0 <= i < t.len() && #[trigger] t[i] == v
}

/// A table is a permutation when it has 256 entries below 256 and every
/// value of `0..256` stands at exactly one position.
pub open spec fn is_permutation(t: Seq<usize>) -> bool {
    &&& t.len() == 256
    &&& forall|i: int| 0 <= i < 256 ==> #[trigger] t[i] < 256
    &&& forall|i: int, j: int| 0 <= i < 256 && 0 <= j < 256 && i != j ==> t[i] != t[j]
    &&& forall|v: int| 0 <= v < 256 ==> #[trigger] occurs(t, v)
}

/// The table that maps every index to itself.
pub open spec fn identity_table() -> Seq<usize> {
    Seq::new(256, |i: int| i as usize)
}

/// `t` with the entries at `i` and `j` exchanged.
pub open spec fn swapped(t: Seq<usize>, i: int, j: int) -> Seq<usize> {
    t.update(i, t[j]).update(j, t[i])
}

/// The position at or below `i` that a drawn value picks: the value modulo
/// `i + 1`.
pub open spec fn partner(i: int, draw: u32) -> int {
    (draw as int) % (i + 1)
}

/// The position that step `i` of the shuffle exchanges with position `i`:
/// the one picked by the hash of `i` under the seed.
pub open spec fn swap_partner(i: int, seed: u32) -> int {
    partner(i, squirrel_noise5_value(i as u32, seed))
}

/// `t` after the shuffle steps for positions 255 down to `i`.
pub open spec fn shuffled_down_to(t: Seq<usize>, seed: u32, i: int) -> Seq<usize>
    decreases 256 - i,
{
    if i >= 256 {
        t
    } else {
        swapped(shuffled_down_to(t, seed, i + 1), i, swap_partner(i, seed))
    }
}

/// `t` after the whole Fisher-Yates pass: positions 255 down to 1, each
/// exchanged with its partner.
pub open spec fn shuffled(t: Seq<usize>, seed: u32) -> Seq<usize> {
    shuffled_down_to(t, seed, 1)
}

/// The table built for a seed: the identity, shuffled.
pub open spec fn seeded_table(seed: u32) -> Seq<usize> {
    shuffled(identity_table(), seed)
}

/// The identity table is a permutation.
pub proof fn lemma_identity_is_permutation()
    ensures
        is_permutation(identity_table()),
{
    let t = identity_table();
    assert forall|v: int| 0 <= v < 256 implies #[trigger] occurs(t, v) by {
        assert(t[v] == v);
    }
}

/// Exchanging two entries of a permutation gives a permutation.
pub proof fn lemma_swap_keeps_permutation(t: Seq<usize>, i: int, j: int)
    requires
        is_permutation(t),
        0 <= i < 256,
        0 <= j < 256,
    ensures
        is_permutation(swapped(t, i, j)),
{
    let s = swapped(t, i, j);
    assert forall|v: int| 0 <= v < 256 implies #[trigger] occurs(s, v) by {
        assert(occurs(t, v));
        let w = choose|w: int| 0 <= w < t.len() && #[trigger] t[w] == v;
        let k = if w == i { j } else if w == j { i } else { w };
        assert(s[k] == v);
    }
    assert forall|a: int, b: int| 0 <= a < 256 && 0 <= b < 256 && a != b implies s[a] != s[b] by {
        let pa = if a == i { j } else if a == j { i } else { a };
        let pb = if b == i { j } else if b == j { i } else { b };
        assert(s[a] == t[pa]);
        assert(s[b] == t[pb]);
    }
}

/// Exchanging two entries of a table keeps its values, each as often as it
/// stood there.
pub proof fn lemma_swap_keeps_values(t: Seq<usize>, i: int, j: int)
    requires
        0 <= i < t.len(),
        0 <= j < t.len(),
    ensures
        swapped(t, i, j).to_multiset() == t.to_multiset(),
{
    broadcast use vstd::multiset::group_multiset_axioms;

    let t1 = t.update(i, t[j]);
    vstd::seq_lib::to_multiset_update(t, i, t[j]);
    vstd::seq_lib::to_multiset_update(t1, j, t[i]);
    vstd::seq_lib::to_multiset_contains(t, t[i]);
    vstd::seq_lib::to_multiset_contains(t, t[j]);
    assert(t.contains(t[i]));
    assert(t.contains(t[j]));
    assert(t1[j] == t[j]);
    assert(swapped(t, i, j).to_multiset() =~= t.to_multiset());
}

/// Every stage of the shuffle keeps the values of any table of 256
/// entries, each as often as it stood there.
pub proof fn lemma_shuffle_stage_keeps_values(t: Seq<usize>, seed: u32, i: int)
    requires
        t.len() == 256,
        0 <= i <= 256,
    ensures
        shuffled_down_to(t, seed, i).len() == 256,
        shuffled_down_to(t, seed, i).to_multiset() == t.to_multiset(),
    decreases 256 - i,
{
    if i < 256 {
        lemma_shuffle_stage_keeps_values(t, seed, i + 1);
        lemma_swap_partner_in_range(i, seed);
        lemma_swap_keeps_values(shuffled_down_to(t, seed, i + 1), i, swap_partner(i, seed));
    }
}

/// The shuffle only rearranges: it keeps the values of any table of 256
/// entries, each as often as it stood there.
pub proof fn lemma_shuffle_keeps_values(t: Seq<usize>, seed: u32)
    requires
        t.len() == 256,
    ensures
        shuffled(t, seed).to_multiset() == t.to_multiset(),
{
    lemma_shuffle_stage_keeps_values(t, seed, 1);
}

/// The partner of position `i` is a position at or below `i`.
pub proof fn lemma_swap_partner_in_range(i: int, seed: u32)
    requires
        0 <= i < 256,
    ensures
        0 <= swap_partner(i, seed) <= i,
{
}

/// Every stage of the shuffle of a permutation is a permutation.
pub proof fn lemma_shuffle_stage_is_permutation(t: Seq<usize>, seed: u32, i: int)
    requires
        is_permutation(t),
        0 <= i <= 256,
    ensures
        is_permutation(shuffled_down_to(t, seed, i)),
    decreases 256 - i,
{
    if i < 256 {
        lemma_shuffle_stage_is_permutation(t, seed, i + 1);
        lemma_swap_partner_in_range(i, seed);
        lemma_swap_keeps_permutation(shuffled_down_to(t, seed, i + 1), i, swap_partner(i, seed));
    }
}

/// Shuffling a permutation gives a permutation, whatever the seed.
pub proof fn lemma_shuffle_keeps_permutation(t: Seq<usize>, seed: u32)
    requires
        is_permutation(t),
    ensures
        is_permutation(shuffled(t, seed)),
{
    lemma_shuffle_stage_is_permutation(t, seed, 1);
}

/// The table built for any seed is a bijection of `0..256`.
pub proof fn lemma_seeded_table_is_permutation(seed: u32)
    ensures
        is_permutation(seeded_table(seed)),
{
    lemma_identity_is_permutation();
    lemma_shuffle_keeps_permutation(identity_table(), seed);
}

/// One step of the shuffle: exchanges the entry at `i` with the entry at the
/// position that the drawn value picks at or below `i`.
pub fn swap_step(v: &mut [usize; 256], i: usize, draw: u32)
    requires
        i < 256,
    ensures
        final(v)@ == swapped(old(v)@, i as int, partner(i as int, draw)),
        final(v)@.to_multiset() == old(v)@.to_multiset(),
{
    proof {
        lemma_swap_keeps_values(old(v)@, i as int, partner(i as int, draw));
    }
    let j: usize = (draw as usize) % (i + 1);
    let a: usize = v[i];
    let b: usize = v[j];
    v[i] = b;
    v[j] = a;
    assert(v@ =~= swapped(old(v)@, i as int, j as int));
}

/// Fisher-Yates shuffle of a table, driven by the seed: for each position
/// from 255 down to 1, the entry is exchanged with the entry at
/// `squirrel_noise5(position, seed) mod (position + 1)`.
pub fn shuffle(v: &mut [usize; 256], seed: u32)
    ensures
        final(v)@ == shuffled(old(v)@, seed),
        final(v)@.to_multiset() == old(v)@.to_multiset(),
        is_permutation(old(v)@) ==> is_permutation(final(v)@),
{
    let mut i: usize = 255;
    while i >= 1
        invariant
            0 <= i <= 255,
            v@ == shuffled_down_to(old(v)@, seed, i + 1),
        decreases i,
    {
        let draw: u32 = squirrel_hash(i as u32, seed);
        swap_step(v, i, draw);
        i = i - 1;
    }
    proof {
        lemma_shuffle_keeps_values(old(v)@, seed);
        if is_permutation(old(v)@) {
            lemma_shuffle_keeps_permutation(old(v)@, seed);
        }
    }
}

/// The identity table, the starting point of every seeded table.
pub fn identity() -> (t: [usize; 256])
    ensures
        t@ == identity_table(),
{
    let mut t: [usize; 256] = [0; 256];
    let mut i: usize = 0;
    while i < 256
        invariant
            0 <= i <= 256,
            forall|k: int| 0 <= k < i ==> t@[k] == k,
        decreases 256 - i,
    {
        t[i] = i;
        i = i + 1;
    }
    assert(t@ =~= identity_table());
    t
}


/// The double lookup that folds two lattice coordinates into one index of
/// `0..256`: the entry at `x mod 256` is added to `y mod 256`, and the sum,
/// again modulo 256, is looked up once more.
pub open spec fn lattice_index(t: Seq<usize>, x: int, y: int) -> usize {
    t[(t[x % 256] + y % 256) % 256]
}

/// The lattice hash reads its coordinates only through their residues
/// modulo 256.
pub proof fn lemma_lattice_index_residues(t: Seq<usize>, x: int, y: int, x2: int, y2: int)
    requires
        x % 256 == x2 % 256,
        y % 256 == y2 % 256,
    ensures
        lattice_index(t, x, y) == lattice_index(t, x2, y2),
{
}

/// Folds two lattice coordinates into one index through the table.
/// Negative coordinates wrap: only their residue modulo 256 counts.
pub fn lattice_hash(table: &[usize; 256], x: i32, y: i32) -> (h: usize)
    requires
        is_permutation(table@),
    ensures
        h == lattice_index(table@, x as int, y as int),
        h < 256,
{
    let xm: i32 = x & 255;
    let ym: i32 = y & 255;
    assert(0 <= xm < 256 && xm == x % 256) by (bit_vector)
        requires
            xm == x & 255,
    ;
    assert(0 <= ym < 256 && ym == y % 256) by (bit_vector)
        requires
            ym == y & 255,
    ;
    let xi: usize = xm as usize;
    let yi: usize = ym as usize;
    let s: usize = table[xi] + yi;
    let k: usize = s & 255;
    assert(k == s % 256) by (bit_vector)
        requires
            k == s & 255,
    ;
    table[k]
}

/// The lattice coordinate after `x`. At the top of the `i32` range it wraps
/// to the bottom, which keeps the residue modulo 256 that lattice hashing
/// reads.
pub fn next_coordinate(x: i32) -> (r: i32)
    ensures
        x < i32::MAX ==> r == x + 1,
        x == i32::MAX ==> r == i32::MIN,
        r as int % 256 == (x + 1) % 256,
{
    if x == i32::MAX {
        i32::MIN
    } else {
        x + 1
    }
}

/// One of the eight unit gradient vectors. The vector points along
/// `(x, y)`, whose components are -1, 0 or 1. Along an axis that pair is the
/// vector itself; on a diagonal the vector is the pair divided by the square
/// root of 2, so that every gradient has length 1.
#[derive(Clone, Copy, Debug, PartialEq, Eq, Structural)]
pub struct Gradient {
    /// Sign of the component along the first axis.
    pub x: i32,
    /// Sign of the component along the second axis.
    pub y: i32,
    /// Whether the vector lies on a diagonal, where both components are
    /// scaled by one over the square root of 2.
    pub diagonal: bool,
}

impl Gradient {
    /// The square of the length of `(x, y)`: the square of the number by
    /// which the pair is divided to give the vector.
    pub open spec fn scale_squared(self) -> int {
        if self.diagonal {
            2
        } else {
            1
        }
    }

    /// The vector has length 1: the squared length of `(x, y)` is the
    /// square of the number that the pair is divided by.
    pub open spec fn is_unit(self) -> bool {
        self.x * self.x + self.y * self.y == self.scale_squared()
    }
}

/// The compass direction chosen by the low three bits of a hash: the eight
/// multiples of 45 degrees counter-clockwise from east, as a pair of
/// components that are -1, 0 or 1.
pub open spec fn gradient_direction(hash: int) -> (int, int) {
    let k = hash % 8;
    if k == 0 {
        (1, 0)
    } else if k == 1 {
        (1, 1)
    } else if k == 2 {
        (0, 1)
    } else if k == 3 {
        (-1, 1)
    } else if k == 4 {
        (-1, 0)
    } else if k == 5 {
        (-1, -1)
    } else if k == 6 {
        (0, -1)
    } else {
        (1, -1)
    }
}

/// The unit gradient vector that belongs to a hash: it points in the
/// hash's compass direction, and it is diagonal for odd hashes.
pub open spec fn gradient_of(hash: int) -> Gradient {
    Gradient {
        x: gradient_direction(hash).0 as i32,
        y: gradient_direction(hash).1 as i32,
        diagonal: hash % 2 == 1,
    }
}

/// The unit gradient vector that belongs to a hash.
pub fn get_perlin_vec(hash: usize) -> (g: Gradient)
    ensures
        g == gradient_of(hash as int),
        (g.x as int, g.y as int) == gradient_direction(hash as int),
        g.diagonal == (hash % 2 == 1),
        g.x * g.x + g.y * g.y == if g.diagonal {
            2int
        } else {
            1int
        },
        g.is_unit(),
{
    let k: usize = hash & 7;
    assert(k == hash % 8 && k % 2 == hash % 2) by (bit_vector)
        requires
            k == hash & 7,
    ;
    proof {
        lemma_gradient_is_unit(hash as int);
    }
    if k == 0 {
        Gradient { x: 1, y: 0, diagonal: false }
    } else if k == 1 {
        Gradient { x: 1, y: 1, diagonal: true }
    } else if k == 2 {
        Gradient { x: 0, y: 1, diagonal: false }
    } else if k == 3 {
        Gradient { x: -1, y: 1, diagonal: true }
    } else if k == 4 {
        Gradient { x: -1, y: 0, diagonal: false }
    } else if k == 5 {
        Gradient { x: -1, y: -1, diagonal: true }
    } else if k == 6 {
        Gradient { x: 0, y: -1, diagonal: false }
    } else {
        Gradient { x: 1, y: -1, diagonal: true }
    }
}

/// Every gradient is a unit vector.
pub proof fn lemma_gradient_is_unit(hash: int)
    ensures
        gradient_of(hash).is_unit(),
{
    let g = gradient_of(hash);
    assert((hash % 8) % 2 == hash % 2) by {
        vstd::arithmetic::div_mod::lemma_mod_mod(hash, 2, 4);
    }
    assert(g.x == 1 || g.x == 0 || g.x == -1);
    assert(g.y == 1 || g.y == 0 || g.y == -1);
    let (x, y) = (g.x as int, g.y as int);
    assert(x * x == if x == 0 { 0int } else { 1int }) by (nonlinear_arith)
        requires
            x == 1 || x == 0 || x == -1,
    ;
    assert(y * y == if y == 0 { 0int } else { 1int }) by (nonlinear_arith)
        requires
            y == 1 || y == 0 || y == -1,
    ;
}

/// The gradient of a hash is chosen by its low three bits alone.
pub proof fn lemma_gradient_by_low_bits(hash: int)
    ensures
        gradient_of(hash) == gradient_of(hash % 8),
{
    assert((hash % 8) % 8 == hash % 8);
    assert((hash % 8) % 2 == hash % 2) by {
        vstd::arithmetic::div_mod::lemma_mod_mod(hash, 2, 4);
    }
}

/// Hashes that differ in their low three bits have gradients that point in
/// different directions.
pub proof fn lemma_gradients_distinct(a: int, b: int)
    requires
        a % 8 != b % 8,
    ensures
        gradient_direction(a) != gradient_direction(b),
{
}

/// The dot product of the pair `(x, y)` of a hash's gradient with an
/// integer offset. The dot product of the gradient itself is this number
/// divided by the square root of the gradient's `scale_squared`.
pub open spec fn gradient_dot(hash: int, x: int, y: int) -> int {
    gradient_direction(hash).0 * x + gradient_direction(hash).1 * y
}

/// The gradient of any hash has zero dot product with the zero offset, so a
/// gradient kernel vanishes at every lattice point.
pub proof fn lemma_gradient_dot_zero(hash: int)
    ensures
        gradient_dot(hash, 0, 0) == 0,
{
}

} // verus!
