use vstd::prelude::*;
use crate::noises::helpers::{
    get_perlin_vec, gradient_of, identity, is_permutation, lattice_hash, lattice_index, Gradient,
    lemma_seeded_table_is_permutation, next_coordinate, seeded_table, shuffle,
};

verus! {

/// The hashes of the four corners of a lattice cell.
#[derive(Clone, Copy, Debug, PartialEq, Eq, Structural)]
pub struct CornerHashes {
    /// Corner `(x, y)`.
    pub aa: usize,
    /// Corner `(x, y + 1)`.
    pub ab: usize,
    /// Corner `(x + 1, y)`.
    pub ba: usize,
    /// Corner `(x + 1, y + 1)`.
    pub bb: usize,
}

/// The lattice side of gradient noise: a seeded permutation table, the hash
/// of a lattice point and the gradient direction that stands there.
pub struct PerlinNoiseImpl {
    permutation: [usize; 256],
}

impl View for PerlinNoiseImpl {
    type V = Seq<usize>;

    closed spec fn view(&self) -> Seq<usize> {
        self.permutation@
    }
}

impl PerlinNoiseImpl {
    #[verifier::type_invariant]
    spec fn well_formed(&self) -> bool {
        is_permutation(self.permutation@)
    }

    /// Builds the table for a seed: the identity, shuffled by that seed.
    pub fn new(seed: u32) -> (r: Self)
        ensures
            r@ == seeded_table(seed),
            is_permutation(r@),
    {
        let mut permutation: [usize; 256] = identity();
        shuffle(&mut permutation, seed);
        proof {
            lemma_seeded_table_is_permutation(seed);
        }
        PerlinNoiseImpl { permutation }
    }

    /// A copy of the table, which for every value of this type is a
    /// bijection of `0..256`.
    pub fn table(&self) -> (t: [usize; 256])
        ensures
            t@ == self@,
            is_permutation(t@),
    {
        proof {
            use_type_invariant(self);
        }
        self.permutation
    }

    /// The hash of the lattice point `(x, y)`.
    pub fn hash(&self, x: i32, y: i32) -> (h: usize)
        ensures
            h == lattice_index(self@, x as int, y as int),
            h < 256,
    {
        proof {
            use_type_invariant(self);
        }
        lattice_hash(&self.permutation, x, y)
    }

    /// The hashes of the four corners of the cell whose lower corner is
    /// `(x, y)`.
    pub fn corner_hashes(&self, x: i32, y: i32) -> (c: CornerHashes)
        ensures
            c.aa == lattice_index(self@, x as int, y as int),
            c.ab == lattice_index(self@, x as int, y + 1),
            c.ba == lattice_index(self@, x + 1, y as int),
            c.bb == lattice_index(self@, x + 1, y + 1),
    {
        let x1: i32 = next_coordinate(x);
        let y1: i32 = next_coordinate(y);
        CornerHashes {
            aa: self.hash(x, y),
            ab: self.hash(x, y1),
            ba: self.hash(x1, y),
            bb: self.hash(x1, y1),
        }
    }

    /// The unit gradient vector that stands at the lattice point `(x, y)`.
    pub fn gradient_at(&self, x: i32, y: i32) -> (g: Gradient)
        ensures
            g == gradient_of(lattice_index(self@, x as int, y as int) as int),
            g.is_unit(),
    {
        get_perlin_vec(self.hash(x, y))
    }
}

} // verus!
