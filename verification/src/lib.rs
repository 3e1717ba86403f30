//! A small, fixed-capacity cache for derived font data.
//!
//! Two cooperating pieces: a generator of unique cache keys, and a bounded
//! cache that maps a keyed font reference to a lazily computed artifact,
//! evicting the entry with the lowest generation stamp when full.

use vstd::prelude::*;

pub mod cache;
pub mod key;

use key::CacheKey;

verus! {

/// A reference to a font resource. It carries the key that was assigned to
/// the resource when it was created; the cache identifies the resource by
/// that key alone.
pub struct FontRef {
    /// The unique key of the underlying font resource.
    pub key: CacheKey,
}

} // verus!
