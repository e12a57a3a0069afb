//! A Bloom filter of fixed size: 128 words of 64 bits, one kilobyte in all.
//!
//! A value is hashed once with FNV-1a; five 12-bit windows of that 64-bit
//! digest give the bit positions that insertion sets and a query tests.
pub mod bloom;
pub mod laws;

pub use bloom::{offsets, Bloom1K};
