//! A small harness for comparing non-cryptographic hash functions on string
//! keys: how fast they run over a shared corpus, and how evenly they spread
//! that corpus over a fixed number of buckets.

pub mod adapter;
pub mod bench;
pub mod config;
pub mod digest;
pub mod histogram;
pub mod keygen;
