use vstd::prelude::*;
use crate::noises::helpers::next_coordinate;

verus! {

/// Side of the square noise tile.
pub const WAVELET_TILE_SIZE: usize = 128;

/// The positions in the row-major tile of the four texels round a sample:
/// `v00` at the sample's own cell, `v10` one step along the first axis,
/// `v01` one step along the second, `v11` one step along both.
#[derive(Clone, Copy, Debug, PartialEq, Eq, Structural)]
pub struct TileTaps {
    pub v00: usize,
    pub v10: usize,
    pub v01: usize,
    pub v11: usize,
}

/// The position in the row-major tile of the texel at column `x` and row
/// `y`, both wrapped round the tile.
pub open spec fn tile_index(x: int, y: int) -> int {
    (y % 128) * 128 + x % 128
}

/// The residue of `x` modulo `n` in `0..n`, also for negative `x`.
pub fn mod_fast(x: i32, n: usize) -> (r: usize)
    requires
        0 < n <= i32::MAX,
    ensures
        r == (x as int) % (n as int),
        r < n,
{
    let m: i32 = n as i32;
    let r: i32 = if x >= 0 {
        x % m
    } else {
        m - 1 - (-1 - x) % m
    };
    proof {
        lemma_residue_of_negative(x as int, m as int);
    }
    r as usize
}

/// For a negative `x`, the residue modulo `n` mirrors that of `-1 - x`.
pub proof fn lemma_residue_of_negative(x: int, n: int)
    requires
        0 < n,
    ensures
        x < 0 ==> x % n == n - 1 - (-1 - x) % n,
{
    if x < 0 {
        let k = -1 - x;
        let q = k / n;
        let r = k % n;
        vstd::arithmetic::div_mod::lemma_fundamental_div_mod(k, n);
        assert(x == n * (-q - 1) + (n - 1 - r)) by (nonlinear_arith)
            requires
                k == n * q + r,
                k == -1 - x,
        ;
        vstd::arithmetic::div_mod::lemma_fundamental_div_mod_converse(x, n, -q - 1, n - 1 - r);
    }
}

/// The tile positions of the four texels between which the sample in cell
/// `(x, y)` is interpolated, with wraparound on both axes.
pub fn tap_indices(x: i32, y: i32) -> (t: TileTaps)
    ensures
        t.v00 == tile_index(x as int, y as int),
        t.v10 == tile_index(x + 1, y as int),
        t.v01 == tile_index(x as int, y + 1),
        t.v11 == tile_index(x + 1, y + 1),
        t.v00 < 16384 && t.v10 < 16384 && t.v01 < 16384 && t.v11 < 16384,
{
    let x_next: i32 = next_coordinate(x);
    let y_next: i32 = next_coordinate(y);
    proof {
        lemma_residue_128(x_next as int, x + 1);
        lemma_residue_128(y_next as int, y + 1);
    }
    let x0: usize = mod_fast(x, WAVELET_TILE_SIZE);
    let x1: usize = mod_fast(x_next, WAVELET_TILE_SIZE);
    let y0: usize = mod_fast(y, WAVELET_TILE_SIZE);
    let y1: usize = mod_fast(y_next, WAVELET_TILE_SIZE);
    TileTaps {
        v00: y0 * WAVELET_TILE_SIZE + x0,
        v10: y0 * WAVELET_TILE_SIZE + x1,
        v01: y1 * WAVELET_TILE_SIZE + x0,
        v11: y1 * WAVELET_TILE_SIZE + x1,
    }
}

/// Two coordinates with the same residue modulo 256 have the same residue
/// modulo 128.
pub proof fn lemma_residue_128(a: int, b: int)
    requires
        a % 256 == b % 256,
    ensures
        a % 128 == b % 128,
{
    vstd::arithmetic::div_mod::lemma_mod_mod(a, 128, 2);
    vstd::arithmetic::div_mod::lemma_mod_mod(b, 128, 2);
}

} // verus!
