use vstd::prelude::*;
use vstd::arithmetic::power::pow;
use crate::types::{AccountId, KittyId};

verus! {

/// The eight little-endian bytes of `x`, least significant first.
pub open spec fn le_bytes(x: u64) -> Seq<u8> {
    Seq::new(8, |i: int| ((x as int / pow(256, i as nat)) % 256) as u8)
}

/// The bytes hashed to derive a kitty identifier: the SCALE encoding of the
/// tuple `(seed, caller, nonce)`.
pub open spec fn id_preimage(seed: Seq<u8>, caller: AccountId, nonce: u64) -> Seq<u8> {
    seed + le_bytes(caller) + le_bytes(nonce)
}

/// The 32-byte BLAKE2b digest of `data`, with no key.
pub uninterp spec fn blake2_256_of(data: Seq<u8>) -> Seq<u8>;

/// The identifier derived from a seed, a caller and a nonce.
pub open spec fn spec_generate_id(seed: Seq<u8>, caller: AccountId, nonce: u64) -> Seq<u8> {
    blake2_256_of(id_preimage(seed, caller, nonce))
}

/// Relies on parity_codec's `Encode::encode` for `([u8; 32], u64, u64)`: a tuple
/// encodes as its fields in order, a byte array as its bytes, and a `u64` as
/// its eight little-endian bytes.
#[verifier::external_body]
fn encode_preimage(seed: &KittyId, caller: AccountId, nonce: u64) -> (r: Vec<u8>)
    ensures
        r@ == id_preimage(seed@, caller, nonce),
{
    parity_codec::Encode::encode(&(*seed, caller, nonce))
}

/// Relies on blake2_rfc::blake2b::blake2b with a 32-byte output and an empty
/// key: the digest depends on the data alone.
#[verifier::external_body]
fn blake2_256(data: &Vec<u8>) -> (r: KittyId)
    ensures
        r@ == blake2_256_of(data@),
{
    let digest = blake2_rfc::blake2b::blake2b(32, &[], data);
    let mut out = [0u8; 32];
    out.copy_from_slice(digest.as_bytes());
    out
}

/// Derives a kitty identifier: the BLAKE2b-256 hash of the encoded
/// `(seed, caller, nonce)`.
pub fn generate_id(seed: &KittyId, caller: AccountId, nonce: u64) -> (r: KittyId)
    ensures
        r@ == spec_generate_id(seed@, caller, nonce),
{
    let preimage = encode_preimage(seed, caller, nonce);
    blake2_256(&preimage)
}

} // verus!
