use vstd::prelude::*;

verus! {

/// The compressed serialization of the public key that
/// `secp256k1::PublicKey::from_str` reads from `text`, if it reads one.
pub uninterp spec fn secp256k1_public_key(text: Seq<char>) -> Option<Seq<u8>>;

/// The x-only serialization of the public key that `key` serializes, if
/// `key` is the serialization of one.
pub uninterp spec fn secp256k1_x_only(key: Seq<u8>) -> Option<Seq<u8>>;

/// The secret that `secp256k1::ecdh::SharedSecret::new` derives from a public
/// and a private key, if `point` and `scalar` serialize such keys.
pub uninterp spec fn secp256k1_shared_secret(point: Seq<u8>, scalar: Seq<u8>) -> Option<Seq<u8>>;

/// Calls `secp256k1::PublicKey::from_str` and serializes the key it returns
/// in compressed form. The contract only names the result: the same text gives the
/// same key.
#[verifier::external_body]
pub(crate) fn parse_public_key(text: &str) -> (key: Option<[u8; 33]>)
    ensures
        match key {
            Some(k) => secp256k1_public_key(text@) == Some(k@),
            None => secp256k1_public_key(text@) is None,
        },
{
    match text.parse::<secp256k1::PublicKey>() {
        Ok(k) => Some(k.serialize()),
        Err(_) => None,
    }
}

/// Calls `secp256k1::PublicKey::x_only_public_key` on the key that
/// `PublicKey::from_slice` reads from `key`, and serializes the x coordinate. The
/// contract only names the result; `None` stands for bytes that are no key.
#[verifier::external_body]
pub(crate) fn x_only_public_key(key: &[u8; 33]) -> (x: Option<[u8; 32]>)
    ensures
        match x {
            Some(v) => secp256k1_x_only(key@) == Some(v@),
            None => secp256k1_x_only(key@) is None,
        },
{
    match secp256k1::PublicKey::from_slice(key) {
        Ok(k) => Some(k.x_only_public_key().0.serialize()),
        Err(_) => None,
    }
}

/// Calls `secp256k1::ecdh::SharedSecret::new` on the keys that
/// `PublicKey::from_slice` and `SecretKey::from_slice` read. The contract only
/// names the result; `None` stands for bytes that are no key.
#[verifier::external_body]
pub(crate) fn shared_secret(point: &[u8; 33], scalar: &[u8; 32]) -> (secret: Option<[u8; 32]>)
    ensures
        match secret {
            Some(s) => secp256k1_shared_secret(point@, scalar@) == Some(s@),
            None => secp256k1_shared_secret(point@, scalar@) is None,
        },
{
    match (secp256k1::PublicKey::from_slice(point), secp256k1::SecretKey::from_slice(scalar)) {
        (Ok(p), Ok(s)) => Some(secp256k1::ecdh::SharedSecret::new(&p, &s).secret_bytes()),
        _ => None,
    }
}

/// Calls `secp256k1::SecretKey::new` with the generator of `rand::thread_rng`.
/// Nothing is promised of the key: every call may return another.
#[verifier::external_body]
pub(crate) fn random_private_key() -> (key: [u8; 32]) {
    secp256k1::SecretKey::new(&mut rand::thread_rng()).secret_bytes()
}

} // verus!
