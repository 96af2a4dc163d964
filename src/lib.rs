//! A Bloom filter: a fixed-size bitmap that answers "has this item possibly
//! been inserted?" with no false negatives.

pub mod bitmap;
pub mod hashing;
pub mod bloom;
pub mod laws;
