//! Release cache and update-gate engine.
//!
//! The library answers one question for a calling client: given your current
//! version, is there a newer release, and if so, where do I download it for
//! your platform? It holds the verified core of that service: the dotted
//! version comparator, the transformation of a raw upstream release
//! description into a normalized per-platform artifact map, the TTL cache
//! state with its double-checked refresh discipline, and the update gate that
//! composes them. Network calls and the web routes around them live outside
//! the library and hand it plain values.

pub mod blog;
pub mod cache;
pub mod gate;
pub mod release;
pub mod serde_examples;
pub mod transform;
pub mod users;
pub mod utils;
pub mod version;
