//! Integer core of a procedural noise engine: seeded permutation tables,
//! lattice hashing for the noise families, the choice of octaves in a
//! fractal sum, and the layout of the colour buffer.

pub mod fbm;
pub mod noises;
pub mod raster;
