//! A rainbow-table password recovery library.
//!
//! The library wraps three digest algorithms behind one hashing call, keeps a
//! persistent digest-to-plaintext table and a word set in a sled-backed store,
//! generates password-like candidates from a weighted strategy set, and runs a
//! staged attack (table lookup, hybrid mutation, word combination, brute-force
//! stub) against a target digest.

pub mod attack;
pub mod coordinator;
pub mod digest;
pub mod generator;
pub mod store;
pub mod text;
