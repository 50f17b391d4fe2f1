use vstd::prelude::*;
use crate::error::Error;
use crate::keys::{secp256k1_x_only, x_only_public_key};
use crate::structs::{Blake3Hash, Secp256k1PubKey};

verus! {

/// The 32 bytes that `blake3::keyed_hash` returns for a key of 32 bytes and an input.
pub uninterp spec fn blake3_keyed_hash(key: Seq<u8>, input: Seq<u8>) -> Seq<u8>;

/// Calls `blake3::keyed_hash`. The contract only names the result: the same key
/// and input give the same hash.
#[verifier::external_body]
pub(crate) fn keyed_hash(key: &[u8; 32], input: &[u8]) -> (hash: [u8; 32])
    ensures
        hash@ == blake3_keyed_hash(key@, input@),
{
    *blake3::keyed_hash(key, input).as_bytes()
}

/// The content address of `plaintext` under the author's key `pk`: the hash of the
/// plaintext, keyed by the x-only serialization of the key.
pub open spec fn file_hash_of(pk: Seq<u8>, plaintext: Seq<u8>) -> Result<Seq<u8>, Error> {
    match secp256k1_x_only(pk) {
        Some(x) => Ok(blake3_keyed_hash(x, plaintext)),
        None => Err(Error::KeyInvalid),
    }
}

/// Computes the content address of a file.
pub fn file_hash(pk: &Secp256k1PubKey, file_bytes: &[u8]) -> (res: Result<Blake3Hash, Error>)
    ensures
        match file_hash_of(pk@, file_bytes@) {
            Ok(v) => res matches Ok(h) && h@ == v,
            Err(x) => res matches Err(e) && e == x,
        },
{
    match x_only_public_key(&pk.0) {
        Some(x) => Ok(Blake3Hash(keyed_hash(&x, file_bytes))),
        None => Err(Error::KeyInvalid),
    }
}

} // verus!
