//! A copy-on-write hash map.
//!
//! Each entry holds its value either as a shared reference into data owned
//! outside the map (`Form::Borrowed`) or as a private copy (`Form::Owned`).
//! Borrowed entries are promoted to owned copies lazily, only when mutation
//! or explicit materialization asks for it.

pub mod index;
pub mod laws;
pub mod map;
pub mod value;

pub use map::CowHashMap;
pub use map::MAX_LEN;
pub use value::CowValue;
pub use value::Form;
