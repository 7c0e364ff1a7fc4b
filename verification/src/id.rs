//! Identifiers: what the library assumes of `uuid::Uuid`.

use crate::hasher::{is_supported, supported};
use uuid::Uuid;
use vstd::prelude::*;

verus! {

/// `uuid::Uuid`, taken as it is: the library reads an identifier through
/// its bytes only.
#[verifier::external_type_specification]
#[verifier::external_body]
pub struct ExUuid(Uuid);

/// The 16 bytes of an identifier, as `Uuid::into_bytes` returns them.
pub uninterp spec fn uuid_bytes(id: Uuid) -> Seq<u8>;

/// Whether the hash function accepts `id`.
pub open spec fn supported_id(id: Uuid) -> bool {
    supported(uuid_bytes(id))
}

/// `Uuid::into_bytes`: the 16 bytes that the identifier is made of, which
/// are the bytes that it writes to a hasher.
#[verifier::external_body]
fn into_bytes(id: Uuid) -> (bytes: [u8; 16])
    ensures
        bytes@ == uuid_bytes(id),
{
    id.into_bytes()
}

/// Tells whether the hash function accepts `id`.
pub fn is_supported_id(id: &Uuid) -> (ok: bool)
    ensures
        ok == supported_id(*id),
{
    let bytes = into_bytes(*id);
    is_supported(&bytes)
}

} // verus!
