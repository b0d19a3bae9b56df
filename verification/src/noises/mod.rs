pub mod anisotropic_noise;
pub mod gabor_noise;
pub mod helpers;
pub mod perlin_noise;
pub mod simplex_noise;
pub mod wavelet_noise;
pub mod worley_noise;
