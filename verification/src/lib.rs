//! A one-time-pad (XOR) encryption library: a byte container with lossless
//! multi-format conversions, and pluggable pseudorandom key generation.

pub mod cryptor;
pub mod rng_functions;
