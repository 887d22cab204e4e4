//! A lossy image codec core: a fixed 2x2 block transform, coefficient and
//! chroma quantizers, and a bit packer producing one 32-bit codeword per
//! block. All arithmetic is exact fixed-point (integer numerators over fixed
//! denominators), so every stage has a precise contract.

pub mod arith;
pub mod chroma;
pub mod color;
pub mod dct;
pub mod pack;
pub mod codec;
