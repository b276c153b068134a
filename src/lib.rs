//! MD5 and SHA-1 compression engines with a configurable number of mixing
//! steps, digests with a Hamming distance, and a diffusion sweep.

pub mod bits;
pub mod padding;
pub mod md5;
pub mod sha1;
pub mod hex;
pub mod diffusion;
