use vstd::prelude::*;
use vstd::bytes::{spec_u64_from_le_bytes, u64_from_le_bytes};
use vstd::slice::slice_subrange;
use carbonado::error::CarbonadoError;
use crate::constants::{FORMAT_BAO, FORMAT_ECIES, FORMAT_ZFEC};
use crate::error::Error;
use crate::structs::BaoHash;

verus! {

/// `carbonado::error::CarbonadoError`, the error type of the codec. Nothing is
/// known of its values.
#[verifier::external_type_specification]
#[verifier::external_body]
pub struct ExCarbonadoError(CarbonadoError);

/// Sizes of an encoded segment.
#[derive(Clone, Copy, Debug, PartialEq, Eq, Structural)]
pub struct Layout {
    /// Length of the encoded segment in bytes.
    pub output_len: u32,
    /// Zero bytes appended to the plaintext before encoding.
    pub padding_len: u32,
    /// Length of each of the eight chunks of the encoded segment.
    pub chunk_len: u32,
}

/// One segment as the codec encoded it.
pub struct EncodedSegment {
    pub bytes: Vec<u8>,
    pub hash: BaoHash,
    pub layout: Layout,
}

/// What an `EncodedSegment` holds.
pub struct EncodedView {
    pub bytes: Seq<u8>,
    pub hash: Seq<u8>,
    pub layout: Layout,
}

impl View for EncodedSegment {
    type V = EncodedView;

    open spec fn view(&self) -> EncodedView {
        EncodedView { bytes: self.bytes@, hash: self.hash@, layout: self.layout }
    }
}

impl EncodedView {
    /// The length that the codec states is the real one, and the bytes part into
    /// eight equal chunks.
    pub open spec fn well_formed(self) -> bool {
        &&& self.hash.len() == 32
        &&& self.layout.output_len as int == self.bytes.len()
        &&& self.bytes.len() % 8 == 0
        &&& self.layout.chunk_len as int == self.bytes.len() / 8
    }
}

/// Why the codec did not decode a segment.
#[derive(Clone, Copy, Debug, PartialEq, Eq, Structural)]
pub enum CodecFailure {
    /// The stream does not have the hash it was asked for.
    HashMismatch,
    /// Anything else.
    Other,
}

/// What `carbonado::encode` returns for a format that does not encrypt: the
/// encoded bytes, their hash, and the output and padding lengths it states;
/// `None` where it fails.
pub uninterp spec fn carbonado_encode(pubkey: Seq<u8>, input: Seq<u8>, format: u8) -> Option<
    (Seq<u8>, Seq<u8>, u32, u32),
>;

/// What `carbonado::decode` returns.
pub uninterp spec fn carbonado_decode(
    secret_key: Seq<u8>,
    hash: Seq<u8>,
    input: Seq<u8>,
    padding: u32,
    format: u8,
) -> Result<Seq<u8>, CodecFailure>;

/// Calls `carbonado::encode` and picks the encoded bytes, the hash and the two
/// lengths out of what it returns. Where the format does not encrypt, the codec
/// draws no random number, and the contract names the result; of an encrypting
/// format it says nothing.
#[verifier::external_body]
pub(crate) fn codec_encode(pubkey: &[u8], input: &[u8], format: u8) -> (res: Result<
    (Vec<u8>, [u8; 32], u32, u32),
    CarbonadoError,
>)
    ensures
        format & FORMAT_ECIES == 0 ==> match res {
            Ok(r) => carbonado_encode(pubkey@, input@, format) == Some((r.0@, r.1@, r.2, r.3)),
            Err(_) => carbonado_encode(pubkey@, input@, format) is None,
        },
{
    let carbonado::structs::Encoded(bytes, hash, info) = carbonado::encode(pubkey, input, format)?;
    Ok((bytes, *hash.as_bytes(), info.output_len, info.padding_len))
}

/// Length of the payload from which the codec strips error correction: what the
/// verifiable stream declares in its first eight bytes, or else all of the input.
pub open spec fn fec_payload_len(input: Seq<u8>, format: u8) -> int {
    if format & FORMAT_BAO != 0 {
        spec_u64_from_le_bytes(input.subrange(0, 8)) as int
    } else {
        input.len() as int
    }
}

/// The inputs on which `carbonado::decode` returns: with error correction, it
/// divides a payload into eight chunks and cuts the padding off the first four, so
/// the payload is not empty and the padding no longer than half of it.
pub open spec fn decode_returns(input: Seq<u8>, padding: u32, format: u8) -> bool {
    format & FORMAT_ZFEC != 0 ==> {
        &&& format & FORMAT_BAO != 0 ==> input.len() >= 8
        &&& 0 < fec_payload_len(input, format)
        &&& padding as int <= fec_payload_len(input, format) / 2
    }
}

/// Calls `carbonado::decode`. The contract names the result, and tells a hash
/// that does not match (an I/O error of kind `InvalidData`, which the verifiable
/// stream's decoder raises) from every other failure.
#[verifier::external_body]
pub(crate) fn codec_decode(
    secret_key: &[u8],
    hash: &[u8; 32],
    input: &[u8],
    padding: u32,
    format: u8,
) -> (res: Result<Vec<u8>, CodecFailure>)
    requires
        decode_returns(input@, padding, format),
    ensures
        match res {
            Ok(plain) => carbonado_decode(secret_key@, hash@, input@, padding, format) == Ok::<
                Seq<u8>,
                CodecFailure,
            >(plain@),
            Err(e) => carbonado_decode(secret_key@, hash@, input@, padding, format) == Err::<
                Seq<u8>,
                CodecFailure,
            >(e),
        },
{
    match carbonado::decode(secret_key, hash, input, padding, format) {
        Ok(plain) => Ok(plain),
        Err(CarbonadoError::StdIoError(e)) if e.kind() == std::io::ErrorKind::InvalidData => Err(
            CodecFailure::HashMismatch,
        ),
        Err(_) => Err(CodecFailure::Other),
    }
}

/// The segment that the codec's output stands for, or `CodecError` where the
/// hash is not of 32 bytes or the output cannot be parted into eight chunks of the
/// size stated.
pub open spec fn encoded_of(bytes: Seq<u8>, hash: Seq<u8>, output_len: u32, padding_len: u32) -> Result<
    EncodedView,
    Error,
> {
    if hash.len() == 32 && output_len as int == bytes.len() && bytes.len() % 8 == 0 {
        Ok(
            EncodedView {
                bytes,
                hash,
                layout: Layout { output_len, padding_len, chunk_len: output_len / 8 },
            },
        )
    } else {
        Err(Error::CodecError)
    }
}

/// What `encode` returns for a format that does not encrypt.
pub open spec fn encode_result(associated_key: Seq<u8>, plaintext: Seq<u8>, format: u8) -> Result<
    EncodedView,
    Error,
> {
    match carbonado_encode(associated_key, plaintext, format) {
        Some(r) => encoded_of(r.0, r.1, r.2, r.3),
        None => Err(Error::CodecError),
    }
}

/// Accepts what the codec returned for a segment if its lengths agree.
pub fn check_encoded(bytes: Vec<u8>, hash: [u8; 32], output_len: u32, padding_len: u32) -> (res:
    Result<EncodedSegment, Error>)
    ensures
        match encoded_of(bytes@, hash@, output_len, padding_len) {
            Ok(v) => res matches Ok(e) && e@ == v,
            Err(x) => res matches Err(e) && e == x,
        },
        res matches Ok(e) ==> e@.well_formed(),
{
    if output_len as usize == bytes.len() && bytes.len() % 8 == 0 {
        Ok(
            EncodedSegment {
                bytes,
                hash: BaoHash(hash),
                layout: Layout { output_len, padding_len, chunk_len: output_len / 8 },
            },
        )
    } else {
        Err(Error::CodecError)
    }
}

/// Encodes one segment of plaintext under the author's serialized public key.
pub fn encode(associated_key: &[u8], plaintext: &[u8], format: u8) -> (res: Result<
    EncodedSegment,
    Error,
>)
    ensures
        format & FORMAT_ECIES == 0 ==> match encode_result(associated_key@, plaintext@, format) {
            Ok(v) => res matches Ok(e) && e@ == v,
            Err(x) => res matches Err(e) && e == x,
        },
        res matches Ok(e) ==> e@.well_formed(),
        res matches Err(e) ==> e == Error::CodecError,
{
    match codec_encode(associated_key, plaintext, format) {
        Ok(r) => check_encoded(r.0, r.1, r.2, r.3),
        Err(_) => Err(Error::CodecError),
    }
}

/// The library's error for a failure of the codec.
pub open spec fn decoded_of(outcome: Result<Seq<u8>, CodecFailure>) -> Result<Seq<u8>, Error> {
    match outcome {
        Ok(plain) => Ok(plain),
        Err(CodecFailure::HashMismatch) => Err(Error::HashMismatch),
        Err(CodecFailure::Other) => Err(Error::CodecError),
    }
}

/// What `decode` returns. An empty error-corrected payload holds no chunk to
/// correct, so it is decoded without that step; a payload shorter than twice its
/// padding, or a verifiable stream too short to declare a length, is refused.
pub open spec fn decode_result(
    shared_secret: Seq<u8>,
    segment_hash: Seq<u8>,
    ciphertext: Seq<u8>,
    padding_len: u32,
    format: u8,
) -> Result<Seq<u8>, Error> {
    if format & FORMAT_ZFEC == 0 {
        decoded_of(carbonado_decode(shared_secret, segment_hash, ciphertext, padding_len, format))
    } else if format & FORMAT_BAO != 0 && ciphertext.len() < 8 {
        Err(Error::CodecError)
    } else if fec_payload_len(ciphertext, format) == 0 {
        if padding_len == 0 {
            decoded_of(
                carbonado_decode(
                    shared_secret,
                    segment_hash,
                    ciphertext,
                    padding_len,
                    format & !FORMAT_ZFEC,
                ),
            )
        } else {
            Err(Error::CodecError)
        }
    } else if padding_len as int > fec_payload_len(ciphertext, format) / 2 {
        Err(Error::CodecError)
    } else {
        decoded_of(carbonado_decode(shared_secret, segment_hash, ciphertext, padding_len, format))
    }
}

/// Maps what the codec returned for a segment to the library's result.
pub fn check_decoded(outcome: Result<Vec<u8>, CodecFailure>) -> (res: Result<Vec<u8>, Error>)
    ensures
        match outcome {
            Ok(plain) => res matches Ok(p) && p@ == plain@,
            Err(CodecFailure::HashMismatch) => res matches Err(e) && e == Error::HashMismatch,
            Err(CodecFailure::Other) => res matches Err(e) && e == Error::CodecError,
        },
{
    match outcome {
        Ok(plain) => Ok(plain),
        Err(CodecFailure::HashMismatch) => Err(Error::HashMismatch),
        Err(CodecFailure::Other) => Err(Error::CodecError),
    }
}

/// Decodes the concatenated chunks of one segment back into its plaintext.
pub fn decode(
    shared_secret: &[u8],
    segment_hash: &BaoHash,
    ciphertext: &[u8],
    padding_len: u32,
    format: u8,
) -> (res: Result<Vec<u8>, Error>)
    ensures
        match decode_result(shared_secret@, segment_hash@, ciphertext@, padding_len, format) {
            Ok(plain) => res matches Ok(p) && p@ == plain,
            Err(x) => res matches Err(e) && e == x,
        },
{
    if format & FORMAT_ZFEC == 0 {
        return check_decoded(
            codec_decode(shared_secret, &segment_hash.0, ciphertext, padding_len, format),
        );
    }
    let payload_len: u64 = if format & FORMAT_BAO != 0 {
        if ciphertext.len() < 8 {
            return Err(Error::CodecError);
        }
        u64_from_le_bytes(slice_subrange(ciphertext, 0, 8))
    } else {
        ciphertext.len() as u64
    };
    if payload_len == 0 {
        if padding_len != 0 {
            return Err(Error::CodecError);
        }
        let plain_format: u8 = format & !FORMAT_ZFEC;
        assert(plain_format & FORMAT_ZFEC == 0) by (bit_vector)
            requires
                plain_format == format & !FORMAT_ZFEC,
                FORMAT_ZFEC == 8u8,
        ;
        return check_decoded(
            codec_decode(shared_secret, &segment_hash.0, ciphertext, padding_len, plain_format),
        );
    }
    if padding_len as u64 > payload_len / 2 {
        return Err(Error::CodecError);
    }
    check_decoded(codec_decode(shared_secret, &segment_hash.0, ciphertext, padding_len, format))
}

} // verus!
