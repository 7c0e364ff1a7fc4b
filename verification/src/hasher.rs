//! The hash function: it validates the format of a 16-byte identifier and
//! takes the hash straight from the random bytes of the identifier.
//!
//! Version 4 and version 7 identifiers share one property: byte 7 and bytes 9
//! to 15 hold random data only.
//!
//! ```text
//! byte   0 1 2 3 4 5    6         7     8         9 .. 15
//! v4     random         ver|rand  rand  var|rand  rand
//! v7     timestamp      ver|rand  rand  var|rand  rand
//! ```
//!
//! Those eight bytes, read as one big-endian integer, are the hash.

use std::hash::{BuildHasher, Hasher};
use vstd::pervasive::unreached;
use vstd::prelude::*;

verus! {

/// The number of bytes of an identifier.
pub const UUID_LEN: usize = 16;

/// The version field of an identifier: the high four bits of byte 6.
pub open spec fn version(bytes: Seq<u8>) -> int {
    bytes[6] as int / 16
}

/// The variant field of an identifier: the top two bits of byte 8.
pub open spec fn variant(bytes: Seq<u8>) -> int {
    bytes[8] as int / 64
}

/// Whether `bytes` is an identifier that the hash function accepts: 16 bytes,
/// of version 4 or 7, with the variant bits `10`.
pub open spec fn supported(bytes: Seq<u8>) -> bool {
    &&& bytes.len() == UUID_LEN
    &&& (version(bytes) == 4 || version(bytes) == 7)
    &&& variant(bytes) == 2
}

/// The hash of a 16-byte identifier: byte 7, then bytes 9 to 15, read as a
/// big-endian integer.
pub open spec fn entropy(bytes: Seq<u8>) -> int {
    bytes[7] as int * 0x0100_0000_0000_0000
        + bytes[9] as int * 0x0001_0000_0000_0000
        + bytes[10] as int * 0x0000_0100_0000_0000
        + bytes[11] as int * 0x0000_0001_0000_0000
        + bytes[12] as int * 0x0000_0000_0100_0000
        + bytes[13] as int * 0x0000_0000_0001_0000
        + bytes[14] as int * 0x0000_0000_0000_0100
        + bytes[15] as int
}

/// Tells whether `bytes` is an identifier that the hash function accepts.
pub fn is_supported(bytes: &[u8]) -> (ok: bool)
    ensures
        ok == supported(bytes@),
{
    if bytes.len() != UUID_LEN {
        return false;
    }
    let b6: u8 = bytes[6];
    let b8: u8 = bytes[8];
    let version: u8 = (b6 & 0b1111_0000) >> 4;
    let variant: u8 = (b8 & 0b1100_0000) >> 6;
    assert(version == b6 / 16) by (bit_vector)
        requires
            version == (b6 & 0b1111_0000) >> 4,
    ;
    assert(variant == b8 / 64) by (bit_vector)
        requires
            variant == (b8 & 0b1100_0000) >> 6,
    ;
    (version == 4 || version == 7) && variant == 2
}

/// Reads the hash out of 16 bytes, whatever their format.
pub fn extract(bytes: &[u8]) -> (hash: u64)
    requires
        bytes@.len() == UUID_LEN,
    ensures
        hash == entropy(bytes@),
{
    let b0: u8 = bytes[7];
    let b1: u8 = bytes[9];
    let b2: u8 = bytes[10];
    let b3: u8 = bytes[11];
    let b4: u8 = bytes[12];
    let b5: u8 = bytes[13];
    let b6: u8 = bytes[14];
    let b7: u8 = bytes[15];
    let hash: u64 = ((b0 as u64) << 56) | ((b1 as u64) << 48) | ((b2 as u64) << 40) | ((b3 as u64)
        << 32) | ((b4 as u64) << 24) | ((b5 as u64) << 16) | ((b6 as u64) << 8) | (b7 as u64);
    assert(hash == b0 as int * 0x0100_0000_0000_0000 + b1 as int * 0x0001_0000_0000_0000 + b2 as int
        * 0x0000_0100_0000_0000 + b3 as int * 0x0000_0001_0000_0000 + b4 as int
        * 0x0000_0000_0100_0000 + b5 as int * 0x0000_0000_0001_0000 + b6 as int
        * 0x0000_0000_0000_0100 + b7 as int) by (bit_vector)
        requires
            hash == ((b0 as u64) << 56) | ((b1 as u64) << 48) | ((b2 as u64) << 40) | ((b3 as u64)
                << 32) | ((b4 as u64) << 24) | ((b5 as u64) << 16) | ((b6 as u64) << 8) | (
            b7 as u64),
    ;
    hash
}

/// Whether the hasher takes integers, through the methods that a hasher has
/// for them. It takes none: it hashes identifiers, and an identifier comes
/// in one write of its 16 bytes. An integer of fewer bytes reaches `write`
/// and is refused there for its length; one of 16 bytes is refused by its
/// own method, whatever its bits.
pub open spec fn takes_integers() -> bool {
    false
}

/// Builds [`UuidHasher`]s. It holds no state: every hasher it builds starts
/// the same way.
#[derive(Clone, Copy, Default)]
pub struct UuidBuildHasher;

/// A hasher for version 4 and version 7 identifiers. It takes one write of
/// the 16 bytes of an identifier and keeps the hash read from them.
pub struct UuidHasher {
    hash: u64,
}

impl View for UuidHasher {
    type V = u64;

    /// The hash that `finish` returns.
    closed spec fn view(&self) -> u64 {
        self.hash
    }
}

impl Default for UuidHasher {
    fn default() -> (hasher: Self)
        ensures
            hasher@ == 0,
    {
        UuidHasher { hash: 0 }
    }
}

impl BuildHasher for UuidBuildHasher {
    type Hasher = UuidHasher;

    fn build_hasher(&self) -> (hasher: UuidHasher)
        ensures
            hasher@ == 0,
    {
        UuidHasher::default()
    }
}

impl Hasher for UuidHasher {
    fn finish(&self) -> (hash: u64)
        ensures
            hash == self@,
    {
        self.hash
    }

    /// Takes the 16 bytes of an identifier. The hash afterwards is read from
    /// the bytes alone: what the hasher held before does not count.
    ///
    /// A caller that nothing holds to the precondition is stopped at run
    /// time: the format is tested once more before the bytes are read.
    fn write(&mut self, bytes: &[u8])
        requires
            supported(bytes@),
        ensures
            final(self)@ == entropy(bytes@),
    {
        if !is_supported(bytes) {
            unreached::<()>();
        }
        self.hash = extract(bytes);
    }

    /// Not supported: a caller that comes here all the same is stopped.
    fn write_u128(&mut self, i: u128)
        requires
            takes_integers(),
    {
        unreached::<()>();
    }

    /// Not supported: a caller that comes here all the same is stopped.
    fn write_i128(&mut self, i: i128)
        requires
            takes_integers(),
    {
        unreached::<()>();
    }
}

/// Hashing is a function of the bytes alone: two hashers that took the same
/// identifier, whatever they held before, finish with the same hash.
pub proof fn lemma_hash_deterministic(first: UuidHasher, second: UuidHasher, bytes: Seq<u8>)
    requires
        first@ == entropy(bytes),
        second@ == entropy(bytes),
    ensures
        first@ == second@,
{
}

/// Two identifiers have the same hash exactly when they agree on byte 7 and
/// on bytes 9 to 15.
pub proof fn lemma_entropy_collision(a: Seq<u8>, b: Seq<u8>)
    requires
        a.len() == UUID_LEN,
        b.len() == UUID_LEN,
    ensures
        entropy(a) == entropy(b) <==> a[7] == b[7] && a.subrange(9, 16) == b.subrange(9, 16),
{
    let (a0, a1, a2, a3, a4, a5, a6, a7) = (a[7], a[9], a[10], a[11], a[12], a[13], a[14], a[15]);
    let (b0, b1, b2, b3, b4, b5, b6, b7) = (b[7], b[9], b[10], b[11], b[12], b[13], b[14], b[15]);
    if a[7] == b[7] && a.subrange(9, 16) == b.subrange(9, 16) {
        assert(forall|i: int| 9 <= i < 16 ==> b[i] == b.subrange(9, 16)[i - 9]);
    }
    if entropy(a) == entropy(b) {
        assert(a0 == b0 && a1 == b1 && a2 == b2 && a3 == b3 && a4 == b4 && a5 == b5 && a6 == b6
            && a7 == b7) by (bit_vector)
            requires
                a0 as int * 0x0100_0000_0000_0000 + a1 as int * 0x0001_0000_0000_0000 + a2 as int
                    * 0x0000_0100_0000_0000 + a3 as int * 0x0000_0001_0000_0000 + a4 as int
                    * 0x0000_0000_0100_0000 + a5 as int * 0x0000_0000_0001_0000 + a6 as int
                    * 0x0000_0000_0000_0100 + a7 as int == b0 as int * 0x0100_0000_0000_0000
                    + b1 as int * 0x0001_0000_0000_0000 + b2 as int * 0x0000_0100_0000_0000
                    + b3 as int * 0x0000_0001_0000_0000 + b4 as int * 0x0000_0000_0100_0000
                    + b5 as int * 0x0000_0000_0001_0000 + b6 as int * 0x0000_0000_0000_0100
                    + b7 as int,
        ;
        assert(a.subrange(9, 16) =~= b.subrange(9, 16));
    }
}

} // verus!
