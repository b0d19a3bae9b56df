use vstd::prelude::*;
use crate::noises::helpers::{
    identity, is_permutation, lemma_seeded_table_is_permutation, next_coordinate, seeded_table,
    shuffle,
};

verus! {

/// The triangle of the simplex lattice that a sample falls in: the step to
/// its middle corner and the gradient indices of its three corners.
#[derive(Clone, Copy, Debug, PartialEq, Eq, Structural)]
pub struct SimplexCorners {
    /// Step along the first axis from the first corner to the middle one.
    pub i1: usize,
    /// Step along the second axis from the first corner to the middle one.
    pub j1: usize,
    /// Gradient index of the first corner.
    pub gi0: usize,
    /// Gradient index of the middle corner.
    pub gi1: usize,
    /// Gradient index of the last corner, one step along both axes.
    pub gi2: usize,
}

/// The gradient index of the simplex lattice point `(i, j)`: the entry at
/// `j mod 256` is added to `i`, and the sum modulo 256 is looked up.
pub open spec fn simplex_index(t: Seq<usize>, i: int, j: int) -> usize {
    t[(i + t[j % 256]) % 256]
}

/// The step from the first corner of a triangle to its middle corner: along
/// the first axis in the lower triangle, along the second in the upper one.
pub open spec fn middle_step(lower: bool) -> (int, int) {
    if lower {
        (1, 0)
    } else {
        (0, 1)
    }
}

/// The direction in which the overlay draws the arrow of a gradient index,
/// chosen by its low three bits: the four diagonals, then the four axis
/// directions.
pub open spec fn arrow_step(gi: int) -> (int, int) {
    let k = gi % 8;
    if k == 0 {
        (-1, -1)
    } else if k == 1 {
        (-1, 1)
    } else if k == 2 {
        (1, -1)
    } else if k == 3 {
        (1, 1)
    } else if k == 4 {
        (-1, 0)
    } else if k == 5 {
        (0, 1)
    } else if k == 6 {
        (0, -1)
    } else {
        (1, 0)
    }
}

/// The direction of the overlay arrow that belongs to a gradient index.
pub fn arrow_direction(gi: usize) -> (d: (i32, i32))
    ensures
        d.0 == arrow_step(gi as int).0,
        d.1 == arrow_step(gi as int).1,
{
    let k: usize = gi & 7;
    assert(k == gi % 8) by (bit_vector)
        requires
            k == gi & 7,
    ;
    if k == 0 {
        (-1, -1)
    } else if k == 1 {
        (-1, 1)
    } else if k == 2 {
        (1, -1)
    } else if k == 3 {
        (1, 1)
    } else if k == 4 {
        (-1, 0)
    } else if k == 5 {
        (0, 1)
    } else if k == 6 {
        (0, -1)
    } else {
        (1, 0)
    }
}

/// The lattice side of simplex noise: a seeded permutation table and the
/// gradient indices of the corners of a triangle.
pub struct SimplexNoiseImpl {
    permutation: [usize; 256],
}

impl View for SimplexNoiseImpl {
    type V = Seq<usize>;

    closed spec fn view(&self) -> Seq<usize> {
        self.permutation@
    }
}

impl SimplexNoiseImpl {
    #[verifier::type_invariant]
    spec fn well_formed(&self) -> bool {
        is_permutation(self.permutation@)
    }

    /// Builds the table for a seed: the identity, shuffled by that seed.
    pub fn new(seed: u32) -> (r: Self)
        ensures
            r@ == seeded_table(seed),
            is_permutation(r@),
    {
        let mut permutation: [usize; 256] = identity();
        shuffle(&mut permutation, seed);
        proof {
            lemma_seeded_table_is_permutation(seed);
        }
        SimplexNoiseImpl { permutation }
    }

    /// A copy of the table, which for every value of this type is a
    /// bijection of `0..256`.
    pub fn table(&self) -> (t: [usize; 256])
        ensures
            t@ == self@,
            is_permutation(t@),
    {
        proof {
            use_type_invariant(self);
        }
        self.permutation
    }

    /// The table entry at `i mod 256`.
    pub fn get_perm(&self, i: usize) -> (p: usize)
        ensures
            p == self@[i as int % 256],
            p < 256,
    {
        proof {
            use_type_invariant(self);
        }
        let k: usize = i & 255;
        assert(k == i % 256) by (bit_vector)
            requires
                k == i & 255,
        ;
        self.permutation[k]
    }

    /// The gradient index of the simplex lattice point `(i, j)`.
    pub fn gradient_index(&self, i: i32, j: i32) -> (g: usize)
        ensures
            g == simplex_index(self@, i as int, j as int),
            g < 256,
    {
        let im: i32 = i & 255;
        let jm: i32 = j & 255;
        assert(0 <= im < 256 && im == i % 256) by (bit_vector)
            requires
                im == i & 255,
        ;
        assert(0 <= jm < 256 && jm == j % 256) by (bit_vector)
            requires
                jm == j & 255,
        ;
        let inner: usize = self.get_perm(jm as usize);
        let sum: usize = im as usize + inner;
        proof {
            lemma_simplex_index_residues(self@, im as int, jm as int, i as int, j as int);
        }
        self.get_perm(sum)
    }

    /// The corners of the triangle that starts at the simplex lattice point
    /// `(i, j)`; `lower` says whether the sample lies in the lower triangle
    /// of that cell, where the offset along the first axis is the larger.
    pub fn get_simplex_corners(&self, i: i32, j: i32, lower: bool) -> (c: SimplexCorners)
        ensures
            c.i1 == middle_step(lower).0,
            c.j1 == middle_step(lower).1,
            c.gi0 == simplex_index(self@, i as int, j as int),
            c.gi1 == simplex_index(self@, i + middle_step(lower).0, j + middle_step(lower).1),
            c.gi2 == simplex_index(self@, i + 1, j + 1),
    {
        let i_next: i32 = next_coordinate(i);
        let j_next: i32 = next_coordinate(j);
        proof {
            use_type_invariant(self);
            lemma_simplex_index_residues(self@, i_next as int, j_next as int, i + 1, j + 1);
            lemma_simplex_index_residues(self@, i_next as int, j as int, i + 1, j as int);
            lemma_simplex_index_residues(self@, i as int, j_next as int, i as int, j + 1);
        }
        let gi0: usize = self.gradient_index(i, j);
        let gi2: usize = self.gradient_index(i_next, j_next);
        if lower {
            SimplexCorners { i1: 1, j1: 0, gi0, gi1: self.gradient_index(i_next, j), gi2 }
        } else {
            SimplexCorners { i1: 0, j1: 1, gi0, gi1: self.gradient_index(i, j_next), gi2 }
        }
    }
}

/// The gradient index reads its coordinates only through their residues
/// modulo 256.
pub proof fn lemma_simplex_index_residues(t: Seq<usize>, i: int, j: int, i2: int, j2: int)
    requires
        i % 256 == i2 % 256,
        j % 256 == j2 % 256,
    ensures
        simplex_index(t, i, j) == simplex_index(t, i2, j2),
{
    let p = t[j % 256] as int;
    vstd::arithmetic::div_mod::lemma_add_mod_noop(i, p, 256);
    vstd::arithmetic::div_mod::lemma_add_mod_noop(i2, p, 256);
}

} // verus!
