//! Key derivation: the canonical encoding of the owner, then that of the
//! entity id, then the tag's string form, hashed to 32 bytes.
//!
//! The owner is part of every key. What another owner created is therefore
//! simply not found: the stores cannot tell "exists, but is not yours" from
//! "does not exist", and disclose neither.

use vstd::prelude::*;
use vstd::slice::slice_to_vec;
use parity_scale_codec::Encode;
use crate::rbac::{AccountId, EntityId, RbacKeyType, Tag};

verus! {

/// The 256-bit Blake2b digest of `data`.
pub uninterp spec fn blake2_256_digest(data: Seq<u8>) -> Seq<u8>;

/// The key under which `(owner, entity, tag)` is stored.
pub open spec fn spec_generate_key(owner: AccountId, entity: EntityId, tag: Tag) -> Seq<u8> {
    blake2_256_digest(owner@ + entity@ + tag.bytes())
}

/// Calls `sp_io::hashing::blake2_256`. Nothing is proved of it: the result is
/// taken to be the Blake2b digest of the input with a 32-byte output, a
/// function of the input bytes alone.
#[verifier::external_body]
fn blake2_256(data: &[u8]) -> (digest: [u8; 32])
    ensures
        digest@ == blake2_256_digest(data@),
{
    sp_io::hashing::blake2_256(data)
}

/// Calls `parity_scale_codec::Encode::encode` on a 32-byte array. Nothing is
/// proved of it: a fixed-size byte array is taken to encode as its own bytes,
/// in order and without a length prefix.
#[verifier::external_body]
pub(crate) fn encode_id(id: &[u8; 32]) -> (bytes: Vec<u8>)
    ensures
        bytes@ == id@,
{
    id.encode()
}

/// Derives the storage key of `(owner, entity, tag)`.
pub fn generate_key(owner: &AccountId, entity: &EntityId, tag: Tag) -> (key: RbacKeyType)
    ensures
        key@ == spec_generate_key(*owner, *entity, tag),
{
    let mut bytes_in_tag: Vec<u8> = slice_to_vec(tag.to_string().as_bytes());
    let mut entity_bytes_to_hash: Vec<u8> = encode_id(entity);
    let mut owner_bytes_to_hash: Vec<u8> = encode_id(owner);
    owner_bytes_to_hash.append(&mut entity_bytes_to_hash);
    owner_bytes_to_hash.append(&mut bytes_in_tag);
    blake2_256(owner_bytes_to_hash.as_slice())
}

} // verus!
