use procedural_noise::noises::anisotropic_noise::AnisotropicNoiseImpl;
use procedural_noise::noises::gabor_noise::GaborNoiseImpl;
use procedural_noise::noises::helpers::{get_perlin_vec, Gradient};
use procedural_noise::noises::perlin_noise::{CornerHashes, PerlinNoiseImpl};
use procedural_noise::noises::simplex_noise::{arrow_direction, SimplexCorners, SimplexNoiseImpl};
use procedural_noise::noises::wavelet_noise::{mod_fast, tap_indices, TileTaps, WAVELET_TILE_SIZE};
use procedural_noise::noises::worley_noise::{
    nearest_two, neighbor_coordinate, FeaturePoint, WorleyNoiseImpl, FARTHEST_KEY,
};

#[test]
fn every_family_builds_the_same_table_for_a_seed() {
    let p = PerlinNoiseImpl::new(42).table();
    assert_eq!(p[..4], [29, 201, 159, 246]);
    assert_eq!(SimplexNoiseImpl::new(42).table(), p);
    assert_eq!(WorleyNoiseImpl::new(42).table(), p);
    assert_eq!(GaborNoiseImpl::new(42).table(), p);
    assert_eq!(AnisotropicNoiseImpl::new(42).table(), p);
    assert_ne!(PerlinNoiseImpl::new(43).table(), p);
}

#[test]
fn perlin_hash_of_lattice_points() {
    let n = PerlinNoiseImpl::new(42);
    assert_eq!(n.hash(0, 0), 0);
    assert_eq!(n.hash(1, 0), 204);
    assert_eq!(n.hash(0, 1), 40);
    assert_eq!(n.hash(-1, -1), 149);
    assert_eq!(n.hash(-3, 7), 85);
}

#[test]
fn perlin_corner_hashes_of_a_cell() {
    let n = PerlinNoiseImpl::new(42);
    assert_eq!(n.corner_hashes(0, 0), CornerHashes { aa: 0, ab: 40, ba: 204, bb: 153 });
    let c = n.corner_hashes(-1, -1);
    assert_eq!(c.aa, 149);
    assert_eq!(c.bb, 0);
    assert_eq!(c.ab, n.hash(-1, 0));
    assert_eq!(c.ba, n.hash(0, -1));
}

#[test]
fn perlin_corner_hashes_at_the_end_of_the_range() {
    let n = PerlinNoiseImpl::new(42);
    let c = n.corner_hashes(i32::MAX, i32::MAX);
    assert_eq!(c.aa, 149);
    assert_eq!(c.bb, 0);
    assert_eq!(c.ab, n.hash(255, 0));
    assert_eq!(c.ba, n.hash(0, 255));
}

#[test]
fn perlin_gradient_at_a_lattice_point() {
    let n = PerlinNoiseImpl::new(42);
    assert_eq!(n.gradient_at(0, 0), Gradient { x: 1, y: 0, diagonal: false });
    assert_eq!(n.gradient_at(1, 0), Gradient { x: -1, y: 0, diagonal: false });
    assert_eq!(n.gradient_at(1, 1), Gradient { x: 1, y: 1, diagonal: true });
    assert_eq!(n.gradient_at(5, 9), get_perlin_vec(62));
    assert_eq!(n.gradient_at(5, 9), Gradient { x: 0, y: -1, diagonal: false });
}

#[test]
fn anisotropic_hash_and_corners() {
    let n = AnisotropicNoiseImpl::new(42);
    assert_eq!(n.hash(5, 9), 62);
    assert_eq!(n.hash(-1, -1), 149);
    assert_eq!(n.corner_hashes(0, 0), CornerHashes { aa: 0, ab: 40, ba: 204, bb: 153 });
}

#[test]
fn gabor_hash_of_a_cell_does_not_depend_on_the_query() {
    let n = GaborNoiseImpl::new(42);
    assert_eq!(n.hash(5, 9), 62);
    assert_eq!(n.hash(5, 9), n.hash(5 + 256, 9 - 256));
    assert_eq!(n.hash(0, 1), 40);
}

#[test]
fn simplex_get_perm_wraps_the_index() {
    let n = SimplexNoiseImpl::new(42);
    assert_eq!(n.get_perm(0), 29);
    assert_eq!(n.get_perm(1), 201);
    assert_eq!(n.get_perm(255), 47);
    assert_eq!(n.get_perm(256), 29);
    assert_eq!(n.get_perm(257 + 512), 201);
    assert_eq!(n.get_perm(usize::MAX), 47);
}

#[test]
fn simplex_gradient_index_of_lattice_points() {
    let n = SimplexNoiseImpl::new(42);
    assert_eq!(n.gradient_index(0, 0), 0);
    assert_eq!(n.gradient_index(1, 0), 40);
    assert_eq!(n.gradient_index(0, 1), 204);
    assert_eq!(n.gradient_index(3, 4), 175);
    assert_eq!(n.gradient_index(-1, -1), 149);
    assert_eq!(n.gradient_index(i32::MAX, 0), 237);
    assert_eq!(n.gradient_index(i32::MIN, 0), 0);
}

#[test]
fn simplex_corners_of_both_triangles() {
    let n = SimplexNoiseImpl::new(42);
    assert_eq!(
        n.get_simplex_corners(3, 4, true),
        SimplexCorners { i1: 1, j1: 0, gi0: 175, gi1: 248, gi2: n.gradient_index(4, 5) }
    );
    assert_eq!(
        n.get_simplex_corners(3, 4, false),
        SimplexCorners { i1: 0, j1: 1, gi0: 175, gi1: 150, gi2: n.gradient_index(4, 5) }
    );
    let c = n.get_simplex_corners(0, 0, false);
    assert_eq!((c.gi0, c.gi1, c.gi2), (0, 204, 153));
    let c = n.get_simplex_corners(-1, -1, true);
    assert_eq!((c.gi0, c.gi1, c.gi2), (149, n.gradient_index(0, -1), 0));
}

#[test]
fn simplex_arrow_directions_by_low_bits() {
    let expected = [(-1, -1), (-1, 1), (1, -1), (1, 1), (-1, 0), (0, 1), (0, -1), (1, 0)];
    for gi in 0..8usize {
        assert_eq!(arrow_direction(gi), expected[gi]);
        assert_eq!(arrow_direction(gi + 16), expected[gi]);
    }
}

#[test]
fn worley_jitter_of_a_cell() {
    let n = WorleyNoiseImpl::new(42);
    assert_eq!(n.hash2d(0, 0), (0, 0));
    assert_eq!(n.hash2d(1, 0), (52, 212));
    assert_eq!(n.hash2d(5, 9), (194, 82));
    assert_eq!(n.hash2d(-1, -1), (235, 3));
    assert_eq!(n.hash2d(5, 9), n.hash2d(5 - 256, 9 + 512));
}

#[test]
fn worley_feature_points_in_visiting_order() {
    let n = WorleyNoiseImpl::new(42);
    let expected = [
        (-1, -1, 167, 159),
        (0, -1, 138, 90),
        (1, -1, 10, 218),
        (-1, 0, 242, 2),
        (0, 0, 194, 82),
        (1, 0, 111, 167),
        (-1, 1, 113, 57),
        (0, 1, 144, 16),
        (1, 1, 136, 200),
    ];
    let points = n.feature_points(5, 9);
    assert_eq!(points.len(), 9);
    for k in 0..9 {
        let (dx, dy, fx, fy) = expected[k];
        assert_eq!(points[k], FeaturePoint { dx, dy, fx, fy });
    }
}

#[test]
fn worley_feature_points_round_the_origin() {
    let n = WorleyNoiseImpl::new(42);
    let points = n.feature_points(0, 0);
    assert_eq!(points[0], FeaturePoint { dx: -1, dy: -1, fx: 235, fy: 3 });
    assert_eq!(points[4], FeaturePoint { dx: 0, dy: 0, fx: 0, fy: 0 });
    assert_eq!(points[8], FeaturePoint { dx: 1, dy: 1, fx: 231, fy: 223 });
    for p in points.iter() {
        assert_eq!((p.fx, p.fy), n.hash2d(p.dx, p.dy));
    }
}

#[test]
fn worley_feature_points_at_the_ends_of_the_range() {
    let n = WorleyNoiseImpl::new(42);
    let hi = n.feature_points(i32::MAX, i32::MAX);
    assert_eq!((hi[8].fx, hi[8].fy), n.hash2d(0, 0));
    assert_eq!((hi[4].fx, hi[4].fy), n.hash2d(255, 255));
    let lo = n.feature_points(i32::MIN, i32::MIN);
    assert_eq!((lo[0].fx, lo[0].fy), n.hash2d(255, 255));
    assert_eq!((lo[4].fx, lo[4].fy), n.hash2d(0, 0));
}

#[test]
fn neighbor_coordinate_steps_and_wraps() {
    assert_eq!(neighbor_coordinate(5, -1), 4);
    assert_eq!(neighbor_coordinate(5, 0), 5);
    assert_eq!(neighbor_coordinate(5, 1), 6);
    assert_eq!(neighbor_coordinate(i32::MAX, 1), i32::MIN);
    assert_eq!(neighbor_coordinate(i32::MIN, -1), i32::MAX);
}

#[test]
fn mod_fast_is_never_negative() {
    assert_eq!(mod_fast(0, 128), 0);
    assert_eq!(mod_fast(127, 128), 127);
    assert_eq!(mod_fast(128, 128), 0);
    assert_eq!(mod_fast(300, 128), 44);
    assert_eq!(mod_fast(-1, 128), 127);
    assert_eq!(mod_fast(-128, 128), 0);
    assert_eq!(mod_fast(-129, 128), 127);
    assert_eq!(mod_fast(-7, 3), 2);
    assert_eq!(mod_fast(7, 3), 1);
    assert_eq!(mod_fast(i32::MIN, 128), 0);
    assert_eq!(mod_fast(i32::MAX, 128), 127);
    assert_eq!(mod_fast(i32::MIN, 1 << 30), 0);
    assert_eq!(mod_fast(-1, 1 << 30), (1 << 30) - 1);
    assert_eq!(mod_fast(5, 1), 0);
    assert_eq!(mod_fast(-1, i32::MAX as usize), i32::MAX as usize - 1);
    assert_eq!(mod_fast(i32::MIN, i32::MAX as usize), i32::MAX as usize - 1);
    assert_eq!(mod_fast(i32::MAX, i32::MAX as usize), 0);
    assert_eq!(mod_fast(-5, (1 << 30) + 1), (1 << 30) - 4);
}

#[test]
fn tap_indices_wrap_round_the_tile() {
    assert_eq!(WAVELET_TILE_SIZE, 128);
    assert_eq!(tap_indices(0, 0), TileTaps { v00: 0, v10: 1, v01: 128, v11: 129 });
    assert_eq!(tap_indices(3, 2), TileTaps { v00: 259, v10: 260, v01: 387, v11: 388 });
    assert_eq!(
        tap_indices(127, 127),
        TileTaps { v00: 127 * 128 + 127, v10: 127 * 128, v01: 127, v11: 0 }
    );
    assert_eq!(
        tap_indices(-1, -1),
        TileTaps { v00: 127 * 128 + 127, v10: 127 * 128, v01: 127, v11: 0 }
    );
    assert_eq!(tap_indices(128, 256), TileTaps { v00: 0, v10: 1, v01: 128, v11: 129 });
    assert_eq!(
        tap_indices(i32::MAX, i32::MAX),
        TileTaps { v00: 127 * 128 + 127, v10: 127 * 128, v01: 127, v11: 0 }
    );
}

fn nearest_distances(distances: &[f64]) -> (f64, f64) {
    let keys: Vec<u64> = distances.iter().map(|d| d.to_bits()).collect();
    let (k1, k2) = nearest_two(&keys);
    (f64::from_bits(k1), f64::from_bits(k2))
}

#[test]
fn nearest_two_starts_at_the_farthest_key() {
    assert_eq!(FARTHEST_KEY, f64::MAX.to_bits());
    assert_eq!(nearest_two(&Vec::new()), (FARTHEST_KEY, FARTHEST_KEY));
    assert_eq!(nearest_two(&vec![5]), (5, FARTHEST_KEY));
    assert_eq!(nearest_two(&vec![FARTHEST_KEY, u64::MAX]), (FARTHEST_KEY, FARTHEST_KEY));
}

#[test]
fn nearest_two_keeps_the_two_smallest_keys() {
    assert_eq!(nearest_two(&vec![7, 3, 9, 5]), (3, 5));
    assert_eq!(nearest_two(&vec![3, 5, 7, 9]), (3, 5));
    assert_eq!(nearest_two(&vec![9, 7, 5, 3]), (3, 5));
    assert_eq!(nearest_two(&vec![4, 4, 8]), (4, 4));
    assert_eq!(nearest_two(&vec![8, 4, 4]), (4, 4));
    assert_eq!(nearest_two(&vec![0, 0]), (0, 0));
}

#[test]
fn nearest_two_orders_distances_as_their_keys() {
    assert_eq!(nearest_distances(&[0.7, 0.2, 0.9, 0.25, 0.5]), (0.2, 0.25));
    assert_eq!(nearest_distances(&[1.5, 0.0, 3.0]), (0.0, 1.5));
    assert_eq!(nearest_distances(&[f64::INFINITY, 2.0, f64::NAN]), (2.0, f64::MAX));
    assert_eq!(nearest_distances(&[]), (f64::MAX, f64::MAX));
    let all = [0.31, 1.2, 0.8, 0.05, 0.9, 1.4, 0.3, 0.6, 2.0];
    let (f1, f2) = nearest_distances(&all);
    assert_eq!((f1, f2), (0.05, 0.3));
    assert!(f1 <= f2);
}

#[test]
fn nearest_two_counts_ties() {
    assert_eq!(nearest_two(&vec![6, 2, 9, 2, 7]), (2, 2));
    assert_eq!(nearest_two(&vec![2, 6, 9, 7]), (2, 6));
    assert_eq!(nearest_two(&vec![6, 9, 7, 2]), (2, 6));
    let keys = vec![40u64, 12, 33, 12, 5, 90, 5, 5];
    let (first, second) = nearest_two(&keys);
    let mut sorted = keys.clone();
    sorted.sort();
    assert_eq!((first, second), (sorted[0], sorted[1]));
}
