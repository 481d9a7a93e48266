//! A string-interning library: maps text to small, stable integer
//! identifiers and resolves them back to the original text.
//!
//! The core is [`map::InternMap`], a bidirectional association between owned
//! text and non-zero 32-bit identifiers together with an allocation counter.
//! [`pool::Pool`] builds such a map pre-seeded with a fixed list of
//! constants, giving each namespace its own independent identifier space.
//! [`symbol::Symbol`] is a copyable handle wrapping one identifier; it
//! compares by identifier for equality and by resolved text for ordering.
//! [`shared::SharedInternMap`] puts a map behind a reader/writer lock so
//! many threads can intern against it concurrently.

pub mod helpers;
pub mod laws;
pub mod map;
pub mod pool;
pub mod shared;
pub mod symbol;
mod tables;

pub use map::InternMap;
pub use map::Internalize;
pub use map::MapModel;
pub use pool::Pool;
pub use shared::SharedInternMap;
pub use symbol::Symbol;
