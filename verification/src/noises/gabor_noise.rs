use vstd::prelude::*;
use crate::noises::helpers::{
    identity, is_permutation, lattice_hash, lattice_index, lemma_seeded_table_is_permutation,
    seeded_table, shuffle,
};

verus! {

/// The lattice side of sparse-convolution noise: a seeded permutation table
/// whose hash of a cell alone fixes that cell's impulse, from whichever
/// neighbouring cell it is looked at.
pub struct GaborNoiseImpl {
    permutation: [usize; 256],
}

impl View for GaborNoiseImpl {
    type V = Seq<usize>;

    closed spec fn view(&self) -> Seq<usize> {
        self.permutation@
    }
}

impl GaborNoiseImpl {
    #[verifier::type_invariant]
    spec fn well_formed(&self) -> bool {
        is_permutation(self.permutation@)
    }

    /// Builds the table for a seed: the identity, shuffled by that seed.
    pub fn new(seed: u32) -> (r: Self)
        ensures
            r@ == seeded_table(seed),
            is_permutation(r@),
    {
        let mut permutation: [usize; 256] = identity();
        shuffle(&mut permutation, seed);
        proof {
            lemma_seeded_table_is_permutation(seed);
        }
        GaborNoiseImpl { permutation }
    }

    /// A copy of the table, which for every value of this type is a
    /// bijection of `0..256`.
    pub fn table(&self) -> (t: [usize; 256])
        ensures
            t@ == self@,
            is_permutation(t@),
    {
        proof {
            use_type_invariant(self);
        }
        self.permutation
    }

    /// The hash of the cell `(x, y)`, from which the cell's impulse is
    /// derived.
    pub fn hash(&self, x: i32, y: i32) -> (h: usize)
        ensures
            h == lattice_index(self@, x as int, y as int),
            h < 256,
    {
        proof {
            use_type_invariant(self);
        }
        lattice_hash(&self.permutation, x, y)
    }
}

} // verus!
