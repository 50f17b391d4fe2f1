use vstd::prelude::*;
use vstd::bytes::{spec_u32_from_le_bytes, u32_from_le_bytes};
use vstd::slice::slice_subrange;
use vstd::string::StringExecFns;
use carbonado::error::CarbonadoError;
use crate::bytes::{array_from_slice, bytes_equal};
use crate::constants::HEADER_LEN;
use crate::error::Error;
use crate::structs::{BaoHash, Secp256k1PubKey};
use crate::text::{byte_to_decimal, decimal, hex_lower};

verus! {

/// The fields of the header that precedes the payload of a chunk file.
#[derive(Clone, Copy, Debug)]
pub struct Header {
    /// Serialized public key of the file's author.
    pub pubkey: [u8; 33],
    /// Hash of the segment that the chunk belongs to.
    pub hash: [u8; 32],
    /// Signature over the segment hash.
    pub signature: [u8; 64],
    /// Codec format of the segment.
    pub format: u8,
    /// Which of the eight chunks this is, and which volume holds it.
    pub chunk_index: u8,
    /// Length of the whole encoded segment.
    pub encoded_len: u32,
    /// Zero bytes appended to the plaintext before encoding.
    pub padding_len: u32,
}

/// What a `Header` holds.
pub struct HeaderView {
    pub pubkey: Seq<u8>,
    pub hash: Seq<u8>,
    pub signature: Seq<u8>,
    pub format: u8,
    pub chunk_index: u8,
    pub encoded_len: u32,
    pub padding_len: u32,
}

impl View for Header {
    type V = HeaderView;

    open spec fn view(&self) -> HeaderView {
        HeaderView {
            pubkey: self.pubkey@,
            hash: self.hash@,
            signature: self.signature@,
            format: self.format,
            chunk_index: self.chunk_index,
            encoded_len: self.encoded_len,
            padding_len: self.padding_len,
        }
    }
}

/// The twelve bytes that open every header: `CARBONADO00` and a line feed.
pub open spec fn magic_number() -> Seq<u8> {
    seq![67u8, 65u8, 82u8, 66u8, 79u8, 78u8, 65u8, 68u8, 79u8, 48u8, 48u8, 10u8]
}

/// The fields at their places in the first `HEADER_LEN` bytes of a chunk file:
/// magic number, public key, hash, signature, format, chunk index, and the two
/// lengths in little-endian order. The nine bytes that follow are not read.
pub open spec fn parsed(bytes: Seq<u8>) -> Option<HeaderView> {
    if bytes.len() >= HEADER_LEN && bytes.subrange(0, 12) == magic_number() {
        Some(
            HeaderView {
                pubkey: bytes.subrange(12, 45),
                hash: bytes.subrange(45, 77),
                signature: bytes.subrange(77, 141),
                format: bytes[141],
                chunk_index: bytes[142],
                encoded_len: spec_u32_from_le_bytes(bytes.subrange(143, 147)),
                padding_len: spec_u32_from_le_bytes(bytes.subrange(147, 151)),
            },
        )
    } else {
        None
    }
}

/// Whether `bytes` is a header of exactly `HEADER_LEN` bytes that records these fields.
pub open spec fn records(
    bytes: Seq<u8>,
    pubkey: Seq<u8>,
    hash: Seq<u8>,
    format: u8,
    chunk_index: u8,
    encoded_len: u32,
    padding_len: u32,
) -> bool {
    &&& bytes.len() == HEADER_LEN
    &&& parsed(bytes) matches Some(h)
    &&& h.pubkey == pubkey
    &&& h.hash == hash
    &&& h.format == format
    &&& h.chunk_index == chunk_index
    &&& h.encoded_len == encoded_len
    &&& h.padding_len == padding_len
}

/// The bytes that `carbonado::file::Header::new` and `try_to_vec` make of these
/// fields; `None` where either fails.
pub uninterp spec fn carbonado_header(
    sk: Seq<u8>,
    pk: Seq<u8>,
    hash: Seq<u8>,
    format: u8,
    chunk_index: u8,
    encoded_len: u32,
    padding_len: u32,
) -> Option<Seq<u8>>;

/// Calls `carbonado::file::Header::new`, without metadata, and serializes the
/// header with `try_to_vec`. The signature in it is deterministic, so the
/// contract names the bytes; it says nothing of where the fields stand in them.
#[verifier::external_body]
pub(crate) fn codec_header(
    sk: &[u8],
    pk: &[u8],
    hash: &[u8],
    format: u8,
    chunk_index: u8,
    encoded_len: u32,
    padding_len: u32,
) -> (res: Result<Vec<u8>, CarbonadoError>)
    ensures
        match res {
            Ok(b) => carbonado_header(
                sk@,
                pk@,
                hash@,
                format,
                chunk_index,
                encoded_len,
                padding_len,
            ) == Some(b@),
            Err(_) => carbonado_header(
                sk@,
                pk@,
                hash@,
                format,
                chunk_index,
                encoded_len,
                padding_len,
            ) is None,
        },
{
    let format = carbonado::constants::Format::from(format);
    carbonado::file::Header::new(sk, pk, hash, format, chunk_index, encoded_len, padding_len, None)?
        .try_to_vec()
}

/// What follows the first `HEADER_LEN` bytes of a file does not change its header.
pub proof fn lemma_parsed_prefix(head: Seq<u8>, rest: Seq<u8>)
    requires
        head.len() >= HEADER_LEN,
    ensures
        parsed(head + rest) == parsed(head),
{
    let all = head + rest;
    assert(all.subrange(0, 12) =~= head.subrange(0, 12));
    assert(all.subrange(12, 45) =~= head.subrange(12, 45));
    assert(all.subrange(45, 77) =~= head.subrange(45, 77));
    assert(all.subrange(77, 141) =~= head.subrange(77, 141));
    assert(all.subrange(143, 147) =~= head.subrange(143, 147));
    assert(all.subrange(147, 151) =~= head.subrange(147, 151));
    assert(all[141] == head[141]);
    assert(all[142] == head[142]);
}

/// Reads the header at the start of a chunk file.
pub fn parse_header(file: &[u8]) -> (res: Result<Header, Error>)
    ensures
        match parsed(file@) {
            Some(v) => res matches Ok(h) && h@ == v,
            None => res matches Err(e) && e == Error::FormatViolation,
        },
{
    if file.len() < HEADER_LEN {
        return Err(Error::FormatViolation);
    }
    let magic: [u8; 12] = [67u8, 65u8, 82u8, 66u8, 79u8, 78u8, 65u8, 68u8, 79u8, 48u8, 48u8, 10u8];
    assert(magic@ =~= magic_number());
    if !bytes_equal(slice_subrange(file, 0, 12), magic.as_slice()) {
        return Err(Error::FormatViolation);
    }
    let pubkey: [u8; 33] = array_from_slice::<33>(slice_subrange(file, 12, 45));
    let hash: [u8; 32] = array_from_slice::<32>(slice_subrange(file, 45, 77));
    let signature: [u8; 64] = array_from_slice::<64>(slice_subrange(file, 77, 141));
    assert(pubkey@ =~= file@.subrange(12, 45));
    assert(hash@ =~= file@.subrange(45, 77));
    assert(signature@ =~= file@.subrange(77, 141));
    Ok(
        Header {
            pubkey,
            hash,
            signature,
            format: file[141],
            chunk_index: file[142],
            encoded_len: u32_from_le_bytes(slice_subrange(file, 143, 147)),
            padding_len: u32_from_le_bytes(slice_subrange(file, 147, 151)),
        },
    )
}

/// What `write_header` returns: the codec's header, if it records the fields it
/// was made from.
pub open spec fn header_result(
    sk: Seq<u8>,
    pk: Seq<u8>,
    hash: Seq<u8>,
    format: u8,
    chunk_index: u8,
    encoded_len: u32,
    padding_len: u32,
) -> Result<Seq<u8>, Error> {
    match carbonado_header(sk, pk, hash, format, chunk_index, encoded_len, padding_len) {
        Some(b) => if records(b, pk, hash, format, chunk_index, encoded_len, padding_len) {
            Ok(b)
        } else {
            Err(Error::CodecError)
        },
        None => Err(Error::CodecError),
    }
}

/// Accepts a serialized header if it has the right length and records the fields given.
pub fn check_header(
    bytes: Vec<u8>,
    pk: &Secp256k1PubKey,
    hash: &BaoHash,
    format: u8,
    chunk_index: u8,
    encoded_len: u32,
    padding_len: u32,
) -> (res: Result<Vec<u8>, Error>)
    ensures
        records(bytes@, pk@, hash@, format, chunk_index, encoded_len, padding_len) ==> (res matches Ok(
            b,
        ) && b@ == bytes@),
        !records(bytes@, pk@, hash@, format, chunk_index, encoded_len, padding_len) ==> (
        res matches Err(e) && e == Error::CodecError),
{
    if bytes.len() != HEADER_LEN {
        return Err(Error::CodecError);
    }
    match parse_header(bytes.as_slice()) {
        Ok(h) => {
            if bytes_equal(h.pubkey.as_slice(), pk.0.as_slice()) && bytes_equal(
                h.hash.as_slice(),
                hash.0.as_slice(),
            ) && h.format == format && h.chunk_index == chunk_index && h.encoded_len == encoded_len
                && h.padding_len == padding_len {
                Ok(bytes)
            } else {
                Err(Error::CodecError)
            }
        },
        Err(_) => Err(Error::CodecError),
    }
}

/// Builds the header of one chunk file, signed with `sk`.
pub fn write_header(
    sk: &[u8],
    pk: &Secp256k1PubKey,
    hash: &BaoHash,
    format: u8,
    chunk_index: u8,
    encoded_len: u32,
    padding_len: u32,
) -> (res: Result<Vec<u8>, Error>)
    ensures
        match header_result(sk@, pk@, hash@, format, chunk_index, encoded_len, padding_len) {
            Ok(b) => res matches Ok(h) && h@ == b,
            Err(x) => res matches Err(e) && e == x,
        },
        res matches Ok(h) ==> records(
            h@,
            pk@,
            hash@,
            format,
            chunk_index,
            encoded_len,
            padding_len,
        ),
{
    match codec_header(
        sk,
        pk.0.as_slice(),
        hash.0.as_slice(),
        format,
        chunk_index,
        encoded_len,
        padding_len,
    ) {
        Ok(bytes) => check_header(bytes, pk, hash, format, chunk_index, encoded_len, padding_len),
        Err(_) => Err(Error::CodecError),
    }
}

/// Name of the chunk files of a segment: the hash in hexadecimal, `.c`, and the
/// format in decimal.
pub open spec fn segment_file_text(hash: Seq<u8>, format: u8) -> Seq<char> {
    hex_lower(hash) + seq!['.', 'c'] + decimal(format as nat)
}

pub fn segment_file_name(hash: &BaoHash, format: u8) -> (name: String)
    ensures
        name@ == segment_file_text(hash@, format),
{
    let mut name = hash.to_string();
    proof {
        reveal_strlit(".c");
    }
    assert(".c"@ =~= seq!['.', 'c']);
    name.append(".c");
    let digits = byte_to_decimal(format);
    name.append(digits.as_str());
    name
}

} // verus!
