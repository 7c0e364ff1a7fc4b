//! What the archived form of the containers needs from the library: the
//! resolvers that go with each archived container, and the load factor of
//! the archived tables.

use rkyv::collections::swiss_table::{HashMapResolver, HashSetResolver};
use vstd::prelude::*;

verus! {

/// rkyv's `HashMapResolver`, carried through untouched.
#[verifier::external_type_specification]
#[verifier::external_body]
pub struct ExHashMapResolver(HashMapResolver);

/// rkyv's `HashSetResolver`, carried through untouched.
#[verifier::external_type_specification]
#[verifier::external_body]
pub struct ExHashSetResolver(HashSetResolver);

/// The load factor of every archived table, as numerator and denominator:
/// seven slots in eight are filled.
pub const LOAD_FACTOR: (usize, usize) = (7, 8);

/// The resolver of an archived map of identifiers.
pub struct UuidMapResolver(HashMapResolver);

/// The resolver of an archived set of identifiers.
pub struct UuidSetResolver(HashSetResolver);

/// The resolver of an archived map of identifier-like keys.
pub struct UuidLikeMapResolver(HashMapResolver);

/// The resolver of an archived set of identifier-like keys.
pub struct UuidLikeSetResolver(HashSetResolver);

impl UuidMapResolver {
    /// The table resolver inside.
    pub closed spec fn inner(self) -> HashMapResolver {
        self.0
    }

    /// Wraps the resolver that serializing the table gave.
    pub fn new(resolver: HashMapResolver) -> (wrapped: Self)
        ensures
            wrapped.inner() == resolver,
    {
        UuidMapResolver(resolver)
    }

    /// Gives the table resolver back, to resolve the archived table with.
    pub fn into_inner(self) -> (resolver: HashMapResolver)
        ensures
            resolver == self.inner(),
    {
        self.0
    }
}

impl UuidSetResolver {
    /// The table resolver inside.
    pub closed spec fn inner(self) -> HashSetResolver {
        self.0
    }

    /// Wraps the resolver that serializing the table gave.
    pub fn new(resolver: HashSetResolver) -> (wrapped: Self)
        ensures
            wrapped.inner() == resolver,
    {
        UuidSetResolver(resolver)
    }

    /// Gives the table resolver back, to resolve the archived table with.
    pub fn into_inner(self) -> (resolver: HashSetResolver)
        ensures
            resolver == self.inner(),
    {
        self.0
    }
}

impl UuidLikeMapResolver {
    /// The table resolver inside.
    pub closed spec fn inner(self) -> HashMapResolver {
        self.0
    }

    /// Wraps the resolver that serializing the table gave.
    pub fn new(resolver: HashMapResolver) -> (wrapped: Self)
        ensures
            wrapped.inner() == resolver,
    {
        UuidLikeMapResolver(resolver)
    }

    /// Gives the table resolver back, to resolve the archived table with.
    pub fn into_inner(self) -> (resolver: HashMapResolver)
        ensures
            resolver == self.inner(),
    {
        self.0
    }
}

impl UuidLikeSetResolver {
    /// The table resolver inside.
    pub closed spec fn inner(self) -> HashSetResolver {
        self.0
    }

    /// Wraps the resolver that serializing the table gave.
    pub fn new(resolver: HashSetResolver) -> (wrapped: Self)
        ensures
            wrapped.inner() == resolver,
    {
        UuidLikeSetResolver(resolver)
    }

    /// Gives the table resolver back, to resolve the archived table with.
    pub fn into_inner(self) -> (resolver: HashSetResolver)
        ensures
            resolver == self.inner(),
    {
        self.0
    }
}

} // verus!
