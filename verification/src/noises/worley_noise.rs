use vstd::prelude::*;
use crate::noises::helpers::{
    identity, is_permutation, lattice_hash, lattice_index, lemma_lattice_index_residues,
    lemma_seeded_table_is_permutation, seeded_table, shuffle,
};

verus! {

/// The feature point of one cell of the 3x3 neighbourhood of a query cell.
/// The point lies at `(dx + fx / 256, dy + fy / 256)` relative to the lower
/// corner of the query cell.
#[derive(Clone, Copy, Debug, PartialEq, Eq, Structural)]
pub struct FeaturePoint {
    /// Cell offset along the first axis: -1, 0 or 1.
    pub dx: i32,
    /// Cell offset along the second axis: -1, 0 or 1.
    pub dy: i32,
    /// Jitter inside the cell along the first axis, in 256ths.
    pub fx: usize,
    /// Jitter inside the cell along the second axis, in 256ths.
    pub fy: usize,
}

/// The jitter of the feature point of a cell, in 256ths of the cell's side,
/// from the cell's hash: the hash times 127 and times 311, each modulo 256.
pub open spec fn jitter(h: int) -> (int, int) {
    ((h * 127) % 256, (h * 311) % 256)
}

/// The feature point of the cell at offset `(dx, dy)` from the query cell
/// `(x, y)`.
pub open spec fn feature_point(t: Seq<usize>, x: int, y: int, dx: int, dy: int) -> FeaturePoint {
    let h = lattice_index(t, x + dx, y + dy) as int;
    FeaturePoint {
        dx: dx as i32,
        dy: dy as i32,
        fx: jitter(h).0 as usize,
        fy: jitter(h).1 as usize,
    }
}

/// The nine feature points round the query cell `(x, y)`, row by row from
/// offset `(-1, -1)` to `(1, 1)`, the first axis running fastest.
pub open spec fn neighborhood(t: Seq<usize>, x: int, y: int) -> Seq<FeaturePoint> {
    Seq::new(9, |k: int| feature_point(t, x, y, k % 3 - 1, k / 3 - 1))
}

/// The key of the largest finite distance: both trackers start there, so a
/// key at or above it is never recorded.
pub const FARTHEST_KEY: u64 = 0x7FEF_FFFF_FFFF_FFFF;

/// The nearest and second-nearest keys after one more key has been seen.
pub open spec fn observe(best: (u64, u64), key: u64) -> (u64, u64) {
    if key < best.0 {
        (key, best.0)
    } else if key < best.1 {
        (best.0, key)
    } else {
        best
    }
}

/// The nearest and second-nearest of a row of distance keys, both starting
/// at `FARTHEST_KEY`, the keys seen in order.
pub open spec fn nearest_pair(keys: Seq<u64>) -> (u64, u64)
    decreases keys.len(),
{
    if keys.len() == 0 {
        (FARTHEST_KEY, FARTHEST_KEY)
    } else {
        observe(nearest_pair(keys.drop_last()), keys.last())
    }
}

/// The nearest key never exceeds the second-nearest, and neither exceeds
/// `FARTHEST_KEY`.
pub proof fn lemma_nearest_pair_ordered(keys: Seq<u64>)
    ensures
        nearest_pair(keys).0 <= nearest_pair(keys).1 <= FARTHEST_KEY,
    decreases keys.len(),
{
    if keys.len() > 0 {
        lemma_nearest_pair_ordered(keys.drop_last());
    }
}

/// The nearest key is a lower bound of `FARTHEST_KEY` and of every key, and
/// it is `FARTHEST_KEY` or one of the keys.
pub proof fn lemma_nearest_is_minimum(keys: Seq<u64>)
    ensures
        forall|i: int| 0 <= i < keys.len() ==> nearest_pair(keys).0 <= #[trigger] keys[i],
        nearest_pair(keys).0 == FARTHEST_KEY || exists|i: int|
            0 <= i < keys.len() && #[trigger] keys[i] == nearest_pair(keys).0,
    decreases keys.len(),
{
    if keys.len() > 0 {
        let front = keys.drop_last();
        lemma_nearest_is_minimum(front);
        lemma_nearest_pair_ordered(front);
        let m = nearest_pair(keys).0;
        assert forall|i: int| 0 <= i < keys.len() implies m <= #[trigger] keys[i] by {
            if i < keys.len() - 1 {
                assert(front[i] == keys[i]);
            }
        }
        if m != FARTHEST_KEY {
            if m == keys.last() {
                assert(keys[keys.len() - 1] == m);
            } else {
                let w = choose|w: int| 0 <= w < front.len() && #[trigger] front[w] == m;
                assert(keys[w] == m);
            }
        }
    }
}

/// Whether `second` is the least of `FARTHEST_KEY` and of the keys at the
/// positions other than `j`.
pub open spec fn least_of_others(keys: Seq<u64>, j: int, second: u64) -> bool {
    &&& second <= FARTHEST_KEY
    &&& forall|i: int| 0 <= i < keys.len() && i != j ==> second <= #[trigger] keys[i]
    &&& (second == FARTHEST_KEY || exists|w: int|
        0 <= w < keys.len() && w != j && #[trigger] keys[w] == second)
}

/// Whether `first` and `second` are the two nearest of the keys, ties
/// counted: `first` is the least of `FARTHEST_KEY` and all keys, and
/// `second` is the least of `FARTHEST_KEY` and the keys that are left when
/// one position that holds `first` is set aside.
pub open spec fn is_nearest_two(keys: Seq<u64>, first: u64, second: u64) -> bool {
    &&& first <= second <= FARTHEST_KEY
    &&& forall|i: int| 0 <= i < keys.len() ==> first <= #[trigger] keys[i]
    &&& if first == FARTHEST_KEY {
        second == FARTHEST_KEY
    } else {
        exists|j: int|
            0 <= j < keys.len() && keys[j] == first && #[trigger] least_of_others(keys, j, second)
    }
}

/// The pair that the fold keeps is the two nearest of the keys, ties
/// counted.
pub proof fn lemma_nearest_pair_is_nearest_two(keys: Seq<u64>)
    ensures
        is_nearest_two(keys, nearest_pair(keys).0, nearest_pair(keys).1),
    decreases keys.len(),
{
    if keys.len() > 0 {
        let front = keys.drop_last();
        let last = keys.len() - 1;
        let k = keys.last();
        let g = nearest_pair(front);
        let f = nearest_pair(keys);
        lemma_nearest_pair_is_nearest_two(front);
        assert forall|i: int| 0 <= i < front.len() implies front[i] == keys[i] by {}
        assert forall|i: int| 0 <= i < keys.len() implies f.0 <= #[trigger] keys[i] by {
            if i < last {
                assert(front[i] == keys[i]);
            }
        }
        if k < g.0 {
            // The new key is the nearest; the old nearest becomes the second.
            assert forall|i: int| 0 <= i < keys.len() && i != last implies g.0 <= #[trigger] keys[
                i
            ] by {
                assert(front[i] == keys[i]);
            }
            if g.0 != FARTHEST_KEY {
                let j = choose|j: int|
                    0 <= j < front.len() && front[j] == g.0 && #[trigger] least_of_others(
                        front,
                        j,
                        g.1,
                    );
                assert(keys[j] == g.0);
            }
            assert(least_of_others(keys, last, g.0));
        } else if g.0 != FARTHEST_KEY {
            let j = choose|j: int|
                0 <= j < front.len() && front[j] == g.0 && #[trigger] least_of_others(
                    front,
                    j,
                    g.1,
                );
            assert(keys[j] == g.0);
            assert forall|i: int| 0 <= i < keys.len() && i != j implies f.1 <= #[trigger] keys[
                i
            ] by {
                if i < last {
                    assert(front[i] == keys[i]);
                }
            }
            if k < g.1 {
                assert(keys[last] == f.1);
            } else if g.1 != FARTHEST_KEY {
                let w = choose|w: int| 0 <= w < front.len() && w != j && #[trigger] front[w] == g.1;
                assert(keys[w] == f.1);
            }
            assert(least_of_others(keys, j, f.1));
        }
    }
}

/// The nearest and the second-nearest of the distances from a query to the
/// feature points round it. A distance is handed over as a key that orders
/// as the distance does; keys at or above `FARTHEST_KEY` are never recorded.
pub fn nearest_two(keys: &Vec<u64>) -> (best: (u64, u64))
    ensures
        best == nearest_pair(keys@),
        is_nearest_two(keys@, best.0, best.1),
        best.0 <= best.1,
{
    let mut f1: u64 = FARTHEST_KEY;
    let mut f2: u64 = FARTHEST_KEY;
    let mut i: usize = 0;
    while i < keys.len()
        invariant
            0 <= i <= keys@.len(),
            (f1, f2) == nearest_pair(keys@.take(i as int)),
        decreases keys@.len() - i,
    {
        let key: u64 = keys[i];
        proof {
            assert(keys@.take(i + 1).drop_last() =~= keys@.take(i as int));
        }
        if key < f1 {
            f2 = f1;
            f1 = key;
        } else if key < f2 {
            f2 = key;
        }
        i = i + 1;
    }
    proof {
        assert(keys@.take(i as int) =~= keys@);
        lemma_nearest_pair_is_nearest_two(keys@);
    }
    (f1, f2)
}

/// The lattice coordinate `x + d` for a step `d` of -1, 0 or 1. A step past
/// either end of the `i32` range wraps to the other end, which keeps the
/// residue modulo 256.
pub fn neighbor_coordinate(x: i32, d: i32) -> (r: i32)
    requires
        -1 <= d <= 1,
    ensures
        i32::MIN <= x + d <= i32::MAX ==> r == x + d,
        x + d > i32::MAX ==> r == i32::MIN,
        x + d < i32::MIN ==> r == i32::MAX,
        r as int % 256 == (x + d) % 256,
{
    if d == 1 && x == i32::MAX {
        i32::MIN
    } else if d == -1 && x == i32::MIN {
        i32::MAX
    } else {
        x + d
    }
}

/// The lattice side of cellular noise: a seeded permutation table and the
/// feature point that it fixes for every cell.
pub struct WorleyNoiseImpl {
    permutation: [usize; 256],
}

impl View for WorleyNoiseImpl {
    type V = Seq<usize>;

    closed spec fn view(&self) -> Seq<usize> {
        self.permutation@
    }
}

impl WorleyNoiseImpl {
    #[verifier::type_invariant]
    spec fn well_formed(&self) -> bool {
        is_permutation(self.permutation@)
    }

    /// Builds the table for a seed: the identity, shuffled by that seed.
    pub fn new(seed: u32) -> (r: Self)
        ensures
            r@ == seeded_table(seed),
            is_permutation(r@),
    {
        let mut permutation: [usize; 256] = identity();
        shuffle(&mut permutation, seed);
        proof {
            lemma_seeded_table_is_permutation(seed);
        }
        WorleyNoiseImpl { permutation }
    }

    /// A copy of the table, which for every value of this type is a
    /// bijection of `0..256`.
    pub fn table(&self) -> (t: [usize; 256])
        ensures
            t@ == self@,
            is_permutation(t@),
    {
        proof {
            use_type_invariant(self);
        }
        self.permutation
    }

    /// The jitter of the feature point of cell `(x, y)`, in 256ths of the
    /// cell's side along each axis.
    pub fn hash2d(&self, x: i32, y: i32) -> (f: (usize, usize))
        ensures
            f.0 == jitter(lattice_index(self@, x as int, y as int) as int).0,
            f.1 == jitter(lattice_index(self@, x as int, y as int) as int).1,
            f.0 < 256,
            f.1 < 256,
    {
        proof {
            use_type_invariant(self);
        }
        let h: usize = lattice_hash(&self.permutation, x, y);
        ((h * 127) % 256, (h * 311) % 256)
    }

    /// The feature points of the nine cells round the query cell `(x, y)`,
    /// in the order in which a distance query visits them.
    pub fn feature_points(&self, x: i32, y: i32) -> (points: Vec<FeaturePoint>)
        ensures
            points@ == neighborhood(self@, x as int, y as int),
    {
        let mut points: Vec<FeaturePoint> = Vec::with_capacity(9);
        let mut dy: i32 = -1;
        while dy <= 1
            invariant
                -1 <= dy <= 2,
                points@.len() == 3 * (dy + 1),
                forall|k: int|
                    0 <= k < points@.len() ==> points@[k] == feature_point(
                        self@,
                        x as int,
                        y as int,
                        k % 3 - 1,
                        k / 3 - 1,
                    ),
            decreases 2 - dy,
        {
            let cell_y: i32 = neighbor_coordinate(y, dy);
            let mut dx: i32 = -1;
            while dx <= 1
                invariant
                    -1 <= dx <= 2,
                    -1 <= dy <= 1,
                    cell_y as int % 256 == (y + dy) % 256,
                    points@.len() == 3 * (dy + 1) + (dx + 1),
                    forall|k: int|
                        0 <= k < points@.len() ==> points@[k] == feature_point(
                            self@,
                            x as int,
                            y as int,
                            k % 3 - 1,
                            k / 3 - 1,
                        ),
                decreases 2 - dx,
            {
                let cell_x: i32 = neighbor_coordinate(x, dx);
                let (fx, fy) = self.hash2d(cell_x, cell_y);
                proof {
                    lemma_lattice_index_residues(
                        self@,
                        cell_x as int,
                        cell_y as int,
                        x + dx,
                        y + dy,
                    );
                }
                points.push(FeaturePoint { dx, dy, fx, fy });
                dx = dx + 1;
            }
            dy = dy + 1;
        }
        assert(points@ =~= neighborhood(self@, x as int, y as int));
        points
    }
}

} // verus!
