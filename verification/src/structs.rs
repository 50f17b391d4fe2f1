use vstd::prelude::*;
use crate::bytes::array_from_slice;
use crate::error::Error;
use crate::keys::{parse_public_key, secp256k1_public_key};
use crate::text::{hash_to_hex, hex_lower};

verus! {

/// Content address of a file: the keyed hash of its plaintext.
#[derive(Clone, Copy, Debug)]
pub struct Blake3Hash(pub [u8; 32]);

impl View for Blake3Hash {
    type V = Seq<u8>;

    open spec fn view(&self) -> Seq<u8> {
        self.0@
    }
}

impl Blake3Hash {
    /// The hash in lowercase hexadecimal, as it names the file's catalog.
    pub fn to_string(&self) -> (text: String)
        ensures
            text@ == hex_lower(self@),
    {
        hash_to_hex(&self.0)
    }
}

/// Content address of an encoded segment.
#[derive(Clone, Copy, Debug)]
pub struct BaoHash(pub [u8; 32]);

impl View for BaoHash {
    type V = Seq<u8>;

    open spec fn view(&self) -> Seq<u8> {
        self.0@
    }
}

impl BaoHash {
    pub fn to_bytes(&self) -> (bytes: Vec<u8>)
        ensures
            bytes@ == self@,
    {
        vstd::slice::slice_to_vec(self.0.as_slice())
    }

    /// The hash in lowercase hexadecimal, the stem of the segment's file names.
    pub fn to_string(&self) -> (text: String)
        ensures
            text@ == hex_lower(self@),
    {
        hash_to_hex(&self.0)
    }

    /// Reads a segment hash from the first 32 bytes of `value`.
    pub fn try_from(value: &[u8]) -> (res: Result<BaoHash, Error>)
        ensures
            value@.len() >= 32 ==> (res matches Ok(h) && h@ == value@.subrange(0, 32)),
            value@.len() < 32 ==> res == Err::<BaoHash, Error>(Error::FormatViolation),
    {
        if value.len() < 32 {
            return Err(Error::FormatViolation);
        }
        Ok(BaoHash(array_from_slice::<32>(value)))
    }
}

/// A hash in one of the forms the node handles.
pub enum Hash {
    Blake3Bytes(Box<[u8]>),
    BaoBytes(Box<[u8]>),
    Blake3(Blake3Hash),
    Bao(BaoHash),
}

/// An authoring public key, held as its 33-byte compressed serialization.
#[derive(Clone, Copy, Debug)]
pub struct Secp256k1PubKey(pub [u8; 33]);

impl View for Secp256k1PubKey {
    type V = Seq<u8>;

    open spec fn view(&self) -> Seq<u8> {
        self.0@
    }
}

impl Secp256k1PubKey {
    /// Reads a public key from its hexadecimal text.
    pub fn try_from(value: &str) -> (res: Result<Secp256k1PubKey, Error>)
        ensures
            match secp256k1_public_key(value@) {
                Some(k) => res matches Ok(pk) && pk@ == k,
                None => res == Err::<Secp256k1PubKey, Error>(Error::KeyInvalid),
            },
    {
        match parse_public_key(value) {
            Some(k) => Ok(Secp256k1PubKey(k)),
            None => Err(Error::KeyInvalid),
        }
    }

    pub fn to_bytes(&self) -> (bytes: Vec<u8>)
        ensures
            bytes@ == self@,
    {
        vstd::slice::slice_to_vec(self.0.as_slice())
    }

    pub fn into_inner(&self) -> (key: [u8; 33])
        ensures
            key@ == self@,
    {
        self.0
    }
}

/// A public key in one of the forms the node handles.
pub enum PubKey {
    Secp256k1Bytes(Box<[u8]>),
    Secp256k1(Secp256k1PubKey),
}

} // verus!
