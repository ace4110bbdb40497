//! Named lists of unique words.
//!
//! The library holds the word-list domain model (a list may never contain the
//! same word twice), an embedded record store that assigns each list a fresh
//! identifier, and the read-modify-write use cases that compose the two.

pub mod errors;
pub mod ids;
pub mod model;
pub mod repository;
pub mod service;
