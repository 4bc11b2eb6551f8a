//! A registry of kitties: each kitty has a unique identifier, one owner and a
//! price. Kitties are enumerable in creation order and, per owner, in the
//! order their owner received them. Every operation validates before it
//! writes, so a failed call leaves the registry untouched.

pub mod types;
pub mod hashing;
pub mod model;
pub mod registry;
pub mod laws;
