//! Unique cache keys and the state of the generator that issues them.

use vstd::prelude::*;

verus! {

/// Uniquely generated value for identifying and caching fonts.
///
/// A key is an opaque integer: unique among the keys issued by one generator,
/// strictly increasing with each allocation, and never zero (zero is reserved
/// as an "unset" sentinel and is never issued).
#[derive(Copy, Clone, PartialOrd, Ord, PartialEq, Eq, Structural, Hash, Debug)]
pub struct CacheKey(usize);

impl View for CacheKey {
    type V = nat;

    closed spec fn view(&self) -> nat {
        self.0 as nat
    }
}

/// The state of the key generator: the value the next issued key will carry.
///
/// The counter starts at 1 and advances by exactly 1 per issued key, so the
/// keys issued by one generator are strictly increasing and never collide.
pub struct KeyGenerator {
    next: usize,
}

impl KeyGenerator {
    /// The value the next issued key will carry.
    pub closed spec fn spec_next(&self) -> nat {
        self.next as nat
    }

    /// A generator is valid when it has not yet issued the sentinel value 0,
    /// which holds from construction on: the counter starts at 1 and only grows.
    pub open spec fn inv(&self) -> bool {
        1 <= self.spec_next()
    }

    /// Creates a fresh generator whose first issued key carries the value 1.
    pub fn new() -> (r: KeyGenerator)
        ensures
            r.inv(),
            r.spec_next() == 1,
    {
        KeyGenerator { next: 1 }
    }

    /// The value the next issued key will carry, as a plain integer.
    pub fn next_value(&self) -> (r: usize)
        ensures
            r == self.spec_next(),
    {
        self.next
    }
}

impl CacheKey {
    /// Generates a new cache key: the generator's current counter value,
    /// after which the counter advances by one. Keys issued by one generator
    /// therefore strictly increase and are never reused.
    pub fn new(generator: &mut KeyGenerator) -> (r: CacheKey)
        requires
            old(generator).inv(),
            old(generator).spec_next() < usize::MAX,
        ensures
            final(generator).inv(),
            r@ == old(generator).spec_next(),
            final(generator).spec_next() == old(generator).spec_next() + 1,
            1 <= r@,
    {
        let value = generator.next;
        generator.next = generator.next + 1;
        CacheKey(value)
    }

    /// Returns the underlying value of the key.
    pub fn value(self) -> (r: usize)
        ensures
            r == self@,
    {
        self.0
    }
}

/// The run of key values a generator issues over `count` consecutive calls,
/// starting from counter value `start`: `start, start + 1, ...`.
pub open spec fn keys_issued(start: nat, count: nat) -> Seq<nat> {
    Seq::new(count, |i: int| (start + i) as nat)
}

/// Uniqueness of issued keys: within any run of consecutive calls to the
/// generator, a later call returns a strictly greater value than an earlier
/// one, so no two calls return the same key.
pub proof fn lemma_keys_issued_unique(start: nat, count: nat, i: int, j: int)
    requires
        0 <= i < j < count,
    ensures
        keys_issued(start, count)[i] < keys_issued(start, count)[j],
        keys_issued(start, count)[i] != keys_issued(start, count)[j],
{
}

} // verus!
