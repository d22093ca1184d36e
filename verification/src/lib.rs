//! Plaintext logic of a set of TFHE experiments: the pseudo-random input
//! generators, the expected results of homomorphic gates and circuits, the
//! plaintext encoding used by programmable bootstrapping, and the operand
//! bounds of the multi-bit benchmark.
pub mod bench;
pub mod depth;
pub mod encoding;
pub mod fhe;
pub mod gates;
pub mod lookup;
pub mod prng;
pub mod trials;
