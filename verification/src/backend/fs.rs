use vstd::prelude::*;
use vstd::slice::{slice_subrange, slice_to_vec};
use crate::bytes::{array_from_slice, bytes_equal};
use crate::codec::{decode, decode_result, encode, encode_result, EncodedSegment, EncodedView};
use crate::config::{catalog_dir_text, join_path, joined, segment_dir_text, SysCfg, Volume};
use crate::constants::{
    CATALOG_DIR, FORMAT_ECIES, HEADER_LEN, MIN_CHUNKS, NODE_FORMAT, SEGMENT_DIR, SEGMENT_SIZE,
    VOLUME_COUNT,
};
use crate::digest::{file_hash, file_hash_of};
use crate::error::Error;
use crate::header::{
    header_result, parse_header, parsed, segment_file_name, segment_file_text, write_header,
    Header, HeaderView,
};
use crate::keys::{secp256k1_shared_secret, shared_secret};
use crate::structs::{BaoHash, Blake3Hash, Secp256k1PubKey};
use crate::text::hex_lower;

verus! {

/// The two directories of a volume.
#[derive(Clone, Copy, Debug, PartialEq, Eq, Structural)]
pub enum Dir {
    /// Holds the chunk files, named by segment hash and format.
    Segment,
    /// Holds the catalog replicas, named by file hash.
    Catalog,
}

/// One file to be created: it must not exist yet.
pub struct FileWrite {
    /// Index of the volume that gets the file.
    pub volume: usize,
    pub dir: Dir,
    pub name: String,
    pub contents: Vec<u8>,
}

/// What a `FileWrite` holds.
#[verifier::ext_equal]
pub struct FileWriteView {
    pub volume: int,
    pub dir: Dir,
    pub name: Seq<char>,
    pub contents: Seq<u8>,
}

impl View for FileWrite {
    type V = FileWriteView;

    open spec fn view(&self) -> FileWriteView {
        FileWriteView {
            volume: self.volume as int,
            dir: self.dir,
            name: self.name@,
            contents: self.contents@,
        }
    }
}

/// The views of a sequence of writes.
pub open spec fn writes_view(writes: Seq<FileWrite>) -> Seq<FileWriteView> {
    Seq::new(writes.len(), |k: int| writes[k]@)
}

/// Everything that storing one file creates, in the order in which it is created.
pub struct WritePlan {
    pub file_hash: Blake3Hash,
    pub writes: Vec<FileWrite>,
}

/// What a `WritePlan` holds.
#[verifier::ext_equal]
pub struct WritePlanView {
    pub file_hash: Seq<u8>,
    pub writes: Seq<FileWriteView>,
}

impl View for WritePlan {
    type V = WritePlanView;

    open spec fn view(&self) -> WritePlanView {
        WritePlanView { file_hash: self.file_hash@, writes: writes_view(self.writes@) }
    }
}

/// Number of segments of a plaintext of `len` bytes: the full ones and a last one,
/// which may be empty.
pub open spec fn segment_count(len: nat) -> nat {
    len / (SEGMENT_SIZE as nat) + 1
}

/// The `j`-th segment of `data`.
pub open spec fn segment_at(data: Seq<u8>, j: int) -> Seq<u8> {
    if (j + 1) * SEGMENT_SIZE <= data.len() {
        data.subrange(j * SEGMENT_SIZE, (j + 1) * SEGMENT_SIZE)
    } else {
        data.subrange(j * SEGMENT_SIZE, data.len() as int)
    }
}

/// The `i`-th of the eight equal chunks of an encoded segment.
pub open spec fn chunk_at(encoded: Seq<u8>, i: int) -> Seq<u8> {
    encoded.subrange(i * (encoded.len() / 8), (i + 1) * (encoded.len() / 8))
}

/// The views of a sequence of segment hashes.
pub open spec fn hash_views(hashes: Seq<BaoHash>) -> Seq<Seq<u8>> {
    Seq::new(hashes.len(), |j: int| hashes[j]@)
}

/// The catalog of a file: its segment hashes one after the other, 32 bytes each.
pub open spec fn catalog_bytes(hashes: Seq<Seq<u8>>) -> Seq<u8> {
    Seq::new(32 * hashes.len(), |k: int| hashes[k / 32][k % 32])
}

/// The chunk file that `write_segment` makes: the header, signed with `sk`, and
/// after it the chunk.
pub open spec fn segment_write_of(
    sk: Seq<u8>,
    pk: Seq<u8>,
    hash: Seq<u8>,
    format: u8,
    segment: Seq<u8>,
    chunk_index: int,
    encoded_len: u32,
    padding_len: u32,
) -> Result<FileWriteView, Error> {
    if chunk_index >= VOLUME_COUNT {
        Err(Error::FormatViolation)
    } else {
        match header_result(sk, pk, hash, format, chunk_index as u8, encoded_len, padding_len) {
            Ok(h) => Ok(
                FileWriteView {
                    volume: chunk_index,
                    dir: Dir::Segment,
                    name: segment_file_text(hash, format),
                    contents: h + segment,
                },
            ),
            Err(e) => Err(e),
        }
    }
}

/// The eight replicas of a catalog, one for each volume in order.
pub open spec fn catalog_writes_of(file_hash: Seq<u8>, hashes: Seq<Seq<u8>>) -> Seq<FileWriteView> {
    Seq::new(
        VOLUME_COUNT as nat,
        |i: int|
            FileWriteView {
                volume: i,
                dir: Dir::Catalog,
                name: hex_lower(file_hash),
                contents: catalog_bytes(hashes),
            },
    )
}

/// What the codec makes of the `j`-th segment of `data`.
pub open spec fn encoded_at(pk: Seq<u8>, data: Seq<u8>, j: int) -> Result<EncodedView, Error> {
    encode_result(pk, segment_at(data, j), NODE_FORMAT)
}

/// Whether the codec encodes every segment of `data`.
pub open spec fn segments_encode(pk: Seq<u8>, data: Seq<u8>) -> bool {
    forall|j: int| 0 <= j < segment_count(data.len()) ==> (#[trigger] encoded_at(pk, data, j)) is Ok
}

/// The encoded segments of `data`, in plaintext order.
pub open spec fn encoded_segments(pk: Seq<u8>, data: Seq<u8>) -> Seq<EncodedView> {
    Seq::new(segment_count(data.len()), |j: int| encoded_at(pk, data, j)->Ok_0)
}

/// The hashes of encoded segments.
pub open spec fn hashes_of(segments: Seq<EncodedView>) -> Seq<Seq<u8>> {
    Seq::new(segments.len(), |j: int| segments[j].hash)
}

/// The `k`-th chunk file of a plan: chunk `k % 8` of segment `k / 8`, for volume `k % 8`.
pub open spec fn chunk_write_at(ss: Seq<u8>, pk: Seq<u8>, segments: Seq<EncodedView>, k: int) -> Result<
    FileWriteView,
    Error,
> {
    let segment = segments[k / 8];
    segment_write_of(
        ss,
        pk,
        segment.hash,
        NODE_FORMAT,
        chunk_at(segment.bytes, k % 8),
        k % 8,
        segment.layout.output_len,
        segment.layout.padding_len,
    )
}

/// Whether a header can be made for every chunk of every segment.
pub open spec fn chunks_write(ss: Seq<u8>, pk: Seq<u8>, segments: Seq<EncodedView>) -> bool {
    forall|k: int|
        0 <= k < 8 * segments.len() ==> (#[trigger] chunk_write_at(ss, pk, segments, k)) is Ok
}

/// The chunk files of all segments: segment by segment, and chunk by chunk within each.
pub open spec fn chunk_writes(ss: Seq<u8>, pk: Seq<u8>, segments: Seq<EncodedView>) -> Seq<
    FileWriteView,
> {
    Seq::new(8 * segments.len(), |k: int| chunk_write_at(ss, pk, segments, k)->Ok_0)
}

/// What `write_file` returns. The checks come in this order: the number of
/// volumes, the author's key, the catalog that is already there, the codec on
/// each segment, the shared secret, the header of each chunk. In the plan the chunk
/// files of all segments stand before the eight catalog replicas.
pub open spec fn write_plan_of(
    volumes: nat,
    sk: Seq<u8>,
    pk: Seq<u8>,
    data: Seq<u8>,
    catalog_present: bool,
) -> Result<WritePlanView, Error> {
    if volumes != VOLUME_COUNT {
        Err(Error::ConfigInvalid)
    } else {
        match file_hash_of(pk, data) {
            Err(e) => Err(e),
            Ok(file_hash) => if catalog_present {
                Err(Error::AlreadyExists)
            } else if !segments_encode(pk, data) {
                Err(Error::CodecError)
            } else {
                let segments = encoded_segments(pk, data);
                match secp256k1_shared_secret(pk, sk) {
                    None => Err(Error::KeyInvalid),
                    Some(ss) => if !chunks_write(ss, pk, segments) {
                        Err(Error::CodecError)
                    } else {
                        Ok(
                            WritePlanView {
                                file_hash,
                                writes: chunk_writes(ss, pk, segments) + catalog_writes_of(
                                    file_hash,
                                    hashes_of(segments),
                                ),
                            },
                        )
                    },
                }
            },
        }
    }
}

/// Borrows the `j`-th segment of a plaintext.
pub fn segment_of(file_bytes: &[u8], j: usize) -> (segment: &[u8])
    requires
        j < segment_count(file_bytes@.len()),
    ensures
        segment@ == segment_at(file_bytes@, j as int),
        segment@.len() <= SEGMENT_SIZE,
{
    let len: usize = file_bytes.len();
    let start: usize = j * SEGMENT_SIZE;
    if len - start >= SEGMENT_SIZE {
        slice_subrange(file_bytes, start, start + SEGMENT_SIZE)
    } else {
        slice_subrange(file_bytes, start, len)
    }
}

/// Borrows the `i`-th of the eight chunks of an encoded segment.
pub fn chunk_of(encoded: &[u8], i: usize) -> (chunk: &[u8])
    requires
        i < VOLUME_COUNT,
    ensures
        chunk@ == chunk_at(encoded@, i as int),
{
    let chunk_len: usize = encoded.len() / 8;
    assert(i * chunk_len <= (i + 1) * chunk_len <= 8 * chunk_len) by (nonlinear_arith)
        requires
            i < 8,
            chunk_len >= 0,
    ;
    slice_subrange(encoded, i * chunk_len, (i + 1) * chunk_len)
}

/// Builds one chunk file: the header of the chunk, then the chunk itself.
pub fn write_segment(
    sk: &[u8],
    pk: &Secp256k1PubKey,
    hash: &BaoHash,
    format: u8,
    segment: &[u8],
    chunk_index: usize,
    encoded_len: u32,
    padding_len: u32,
) -> (res: Result<FileWrite, Error>)
    ensures
        match segment_write_of(
            sk@,
            pk@,
            hash@,
            format,
            segment@,
            chunk_index as int,
            encoded_len,
            padding_len,
        ) {
            Ok(v) => res matches Ok(w) && w@ == v,
            Err(x) => res matches Err(e) && e == x,
        },
{
    if chunk_index >= VOLUME_COUNT {
        return Err(Error::FormatViolation);
    }
    match write_header(sk, pk, hash, format, chunk_index as u8, encoded_len, padding_len) {
        Ok(header) => {
            let mut contents = header;
            let ghost head = contents@;
            contents.extend_from_slice(segment);
            assert(contents@ =~= head + segment@);
            Ok(
                FileWrite {
                    volume: chunk_index,
                    dir: Dir::Segment,
                    name: segment_file_name(hash, format),
                    contents,
                },
            )
        },
        Err(e) => Err(e),
    }
}

/// Serializes a catalog.
pub fn catalog_contents(segment_hashes: &[BaoHash]) -> (contents: Vec<u8>)
    ensures
        contents@ == catalog_bytes(hash_views(segment_hashes@)),
{
    let mut contents: Vec<u8> = Vec::new();
    let mut j: usize = 0;
    while j < segment_hashes.len()
        invariant
            j <= segment_hashes@.len(),
            contents@.len() == 32 * j,
            forall|k: int| 0 <= k < 32 * j ==> contents@[k] == segment_hashes@[k / 32]@[k % 32],
        decreases segment_hashes@.len() - j,
    {
        let ghost before = contents@;
        contents.extend_from_slice(segment_hashes[j].0.as_slice());
        assert forall|k: int| 0 <= k < 32 * (j + 1) implies contents@[k] == segment_hashes@[k
            / 32]@[k % 32] by {
            if k < 32 * j {
                assert(contents@[k] == before[k]);
            } else {
                assert(contents@[k] == segment_hashes@[j as int]@[k - 32 * j]);
            }
        }
        j = j + 1;
    }
    assert(contents@ =~= catalog_bytes(hash_views(segment_hashes@)));
    contents
}

/// Builds the eight replicas of a file's catalog, one for each volume.
pub fn write_catalog(file_hash: &Blake3Hash, segment_hashes: &[BaoHash]) -> (writes: Vec<FileWrite>)
    ensures
        writes_view(writes@) == catalog_writes_of(file_hash@, hash_views(segment_hashes@)),
{
    let contents = catalog_contents(segment_hashes);
    let mut writes: Vec<FileWrite> = Vec::new();
    let mut i: usize = 0;
    while i < VOLUME_COUNT
        invariant
            i <= VOLUME_COUNT,
            writes@.len() == i,
            contents@ == catalog_bytes(hash_views(segment_hashes@)),
            forall|k: int|
                0 <= k < i ==> (#[trigger] writes@[k])@ == catalog_writes_of(
                    file_hash@,
                    hash_views(segment_hashes@),
                )[k],
        decreases VOLUME_COUNT - i,
    {
        let write = FileWrite {
            volume: i,
            dir: Dir::Catalog,
            name: file_hash.to_string(),
            contents: slice_to_vec(contents.as_slice()),
        };
        writes.push(write);
        i = i + 1;
    }
    assert(writes_view(writes@) =~= catalog_writes_of(file_hash@, hash_views(segment_hashes@)));
    writes
}

/// The views of a sequence of encoded segments.
pub open spec fn encoded_views(segments: Seq<EncodedSegment>) -> Seq<EncodedView> {
    Seq::new(segments.len(), |j: int| segments[j]@)
}

/// Cuts a plaintext into segments and encodes each under the author's key.
pub fn encode_segments(pk: &Secp256k1PubKey, file_bytes: &[u8]) -> (res: Result<
    Vec<EncodedSegment>,
    Error,
>)
    ensures
        segments_encode(pk@, file_bytes@) ==> (res matches Ok(segments) && encoded_views(segments@)
            == encoded_segments(pk@, file_bytes@)),
        !segments_encode(pk@, file_bytes@) ==> (res matches Err(e) && e == Error::CodecError),
{
    assert(NODE_FORMAT & FORMAT_ECIES == 0) by (bit_vector)
        requires
            NODE_FORMAT == 12u8,
            FORMAT_ECIES == 1u8,
    ;
    let count: usize = file_bytes.len() / SEGMENT_SIZE + 1;
    let mut segments: Vec<EncodedSegment> = Vec::new();
    let mut j: usize = 0;
    while j < count
        invariant
            j <= count,
            count == segment_count(file_bytes@.len()),
            NODE_FORMAT & FORMAT_ECIES == 0,
            segments@.len() == j,
            forall|k: int|
                0 <= k < j ==> (#[trigger] encoded_at(pk@, file_bytes@, k)) == Ok::<
                    EncodedView,
                    Error,
                >(segments@[k]@),
        decreases count - j,
    {
        match encode(pk.0.as_slice(), segment_of(file_bytes, j), NODE_FORMAT) {
            Ok(segment) => {
                segments.push(segment);
            },
            Err(_) => {
                assert(encoded_at(pk@, file_bytes@, j as int) is Err);
                return Err(Error::CodecError);
            },
        }
        j = j + 1;
    }
    assert(encoded_views(segments@) =~= encoded_segments(pk@, file_bytes@));
    Ok(segments)
}

/// Parts every encoded segment into eight chunks and builds the chunk file of
/// each: chunk `i` is for volume `i`.
pub fn scatter(secret: &[u8; 32], pk: &Secp256k1PubKey, segments: &Vec<EncodedSegment>) -> (res:
    Result<Vec<FileWrite>, Error>)
    ensures
        chunks_write(secret@, pk@, encoded_views(segments@)) ==> (res matches Ok(writes)
            && writes_view(writes@) == chunk_writes(secret@, pk@, encoded_views(segments@))),
        !chunks_write(secret@, pk@, encoded_views(segments@)) ==> (res matches Err(e) && e
            == Error::CodecError),
{
    let ghost views = encoded_views(segments@);
    let mut writes: Vec<FileWrite> = Vec::new();
    let mut j: usize = 0;
    while j < segments.len()
        invariant
            j <= segments@.len(),
            views == encoded_views(segments@),
            writes@.len() == 8 * j,
            forall|k: int|
                0 <= k < 8 * j ==> (#[trigger] chunk_write_at(secret@, pk@, views, k)) == Ok::<
                    FileWriteView,
                    Error,
                >(writes@[k]@),
        decreases segments@.len() - j,
    {
        let segment = &segments[j];
        let mut i: usize = 0;
        while i < VOLUME_COUNT
            invariant
                i <= VOLUME_COUNT,
                j < segments@.len(),
                views == encoded_views(segments@),
                *segment == segments@[j as int],
                writes@.len() == 8 * j + i,
                forall|k: int|
                    0 <= k < 8 * j + i ==> (#[trigger] chunk_write_at(secret@, pk@, views, k))
                        == Ok::<FileWriteView, Error>(writes@[k]@),
            decreases VOLUME_COUNT - i,
        {
            let ghost k = 8 * j + i;
            assert(k / 8 == j && k % 8 == i);
            assert(views[k / 8] == segment@);
            match write_segment(
                secret.as_slice(),
                pk,
                &segment.hash,
                NODE_FORMAT,
                chunk_of(segment.bytes.as_slice(), i),
                i,
                segment.layout.output_len,
                segment.layout.padding_len,
            ) {
                Ok(write) => {
                    assert(chunk_write_at(secret@, pk@, views, k) == Ok::<FileWriteView, Error>(
                        write@,
                    ));
                    writes.push(write);
                },
                Err(e) => {
                    assert(chunk_write_at(secret@, pk@, views, k) is Err);
                    assert(e == Error::CodecError);
                    return Err(Error::CodecError);
                },
            }
            i = i + 1;
        }
        j = j + 1;
    }
    assert(writes_view(writes@) =~= chunk_writes(secret@, pk@, views));
    Ok(writes)
}

/// The hashes of encoded segments, in order.
pub fn segment_hashes(segments: &Vec<EncodedSegment>) -> (hashes: Vec<BaoHash>)
    ensures
        hash_views(hashes@) == hashes_of(encoded_views(segments@)),
{
    let mut hashes: Vec<BaoHash> = Vec::new();
    let mut j: usize = 0;
    while j < segments.len()
        invariant
            j <= segments@.len(),
            hashes@.len() == j,
            forall|k: int| 0 <= k < j ==> (#[trigger] hashes@[k])@ == segments@[k].hash@,
        decreases segments@.len() - j,
    {
        hashes.push(segments[j].hash);
        j = j + 1;
    }
    assert(hash_views(hashes@) =~= hashes_of(encoded_views(segments@)));
    hashes
}

/// Plans the storage of a file: computes its content address, encodes its
/// segments, and lists the chunk files and catalog replicas to create, in order.
/// `catalog_present` says whether the primary volume already holds a catalog
/// under the file's hash; if so nothing is encoded and nothing is to be created.
pub fn write_file(
    cfg: &SysCfg,
    pk: &Secp256k1PubKey,
    file_bytes: &[u8],
    catalog_present: bool,
) -> (res: Result<WritePlan, Error>)
    ensures
        match write_plan_of(
            cfg.volumes@.len(),
            cfg.private_key@,
            pk@,
            file_bytes@,
            catalog_present,
        ) {
            Ok(v) => res matches Ok(plan) && plan@ == v,
            Err(x) => res matches Err(e) && e == x,
        },
{
    if cfg.volumes.len() != VOLUME_COUNT {
        return Err(Error::ConfigInvalid);
    }
    let file_hash = match file_hash(pk, file_bytes) {
        Ok(hash) => hash,
        Err(e) => {
            return Err(e);
        },
    };
    if catalog_present {
        return Err(Error::AlreadyExists);
    }
    let segments = match encode_segments(pk, file_bytes) {
        Ok(segments) => segments,
        Err(e) => {
            return Err(e);
        },
    };
    let secret = match shared_secret(&pk.0, &cfg.private_key) {
        Some(secret) => secret,
        None => {
            return Err(Error::KeyInvalid);
        },
    };
    let mut writes = match scatter(&secret, pk, &segments) {
        Ok(writes) => writes,
        Err(e) => {
            return Err(e);
        },
    };
    let hashes = segment_hashes(&segments);
    let mut catalogs = write_catalog(&file_hash, hashes.as_slice());
    let ghost chunks = writes_view(writes@);
    let ghost replicas = writes_view(catalogs@);
    writes.append(&mut catalogs);
    assert(writes_view(writes@) =~= chunks + replicas);
    Ok(WritePlan { file_hash, writes })
}

/// What was read of the eight chunk files of one segment: for each volume in
/// order the contents of its file, or `None` where the file is absent.
pub struct SegmentFiles {
    pub chunks: Vec<Option<Vec<u8>>>,
}

/// The contents of a file that may be absent.
pub open spec fn file_view(file: Option<Vec<u8>>) -> Option<Seq<u8>> {
    match file {
        Some(bytes) => Some(bytes@),
        None => None,
    }
}

/// The contents of files that may be absent.
pub open spec fn files_view(files: Seq<Option<Vec<u8>>>) -> Seq<Option<Seq<u8>>> {
    Seq::new(files.len(), |i: int| file_view(files[i]))
}

impl View for SegmentFiles {
    type V = Seq<Option<Seq<u8>>>;

    open spec fn view(&self) -> Seq<Option<Seq<u8>>> {
        files_view(self.chunks@)
    }
}

/// The views of the files read for a sequence of segments.
pub open spec fn segment_files_view(segments: Seq<SegmentFiles>) -> Seq<Seq<Option<Seq<u8>>>> {
    Seq::new(segments.len(), |j: int| segments[j]@)
}

/// The `i`-th of a sequence of files; a file that the sequence does not reach is absent.
pub open spec fn file_at(files: Seq<Option<Seq<u8>>>, i: int) -> Option<Seq<u8>> {
    if 0 <= i < files.len() {
        files[i]
    } else {
        None
    }
}

/// The header and payload of the chunk file of volume `i` for the segment `hash`.
/// The chunk counts as missing where the file is absent, its header does not
/// parse, the header names another segment, chunk or format, or the file is not
/// exactly as long as the header and an eighth of the encoded segment.
pub open spec fn chunk_payload(file: Option<Seq<u8>>, hash: Seq<u8>, i: int) -> Option<
    (HeaderView, Seq<u8>),
> {
    match file {
        None => None,
        Some(bytes) => match parsed(bytes) {
            None => None,
            Some(h) => if h.hash == hash && h.chunk_index as int == i && h.format == NODE_FORMAT
                && bytes.len() == HEADER_LEN + h.encoded_len / 8 {
                Some((h, bytes.subrange(HEADER_LEN as int, bytes.len() as int)))
            } else {
                None
            },
        },
    }
}

/// Whether a chunk file is there and has a header that names another segment.
pub open spec fn names_other_segment(file: Option<Seq<u8>>, hash: Seq<u8>) -> bool {
    match file {
        None => false,
        Some(bytes) => match parsed(bytes) {
            None => false,
            Some(h) => h.hash != hash,
        },
    }
}

/// Whether one of the chunk files of volumes `0` to `upto - 1` names another segment.
pub open spec fn other_segment_among(files: Seq<Option<Seq<u8>>>, hash: Seq<u8>, upto: int) -> bool
    decreases upto,
{
    if upto <= 0 {
        false
    } else {
        other_segment_among(files, hash, upto - 1) || names_other_segment(
            file_at(files, upto - 1),
            hash,
        )
    }
}

/// The payloads of the chunks of volumes `0` to `upto - 1`, one after the other;
/// a missing chunk adds nothing.
pub open spec fn gathered(files: Seq<Option<Seq<u8>>>, hash: Seq<u8>, upto: int) -> Seq<u8>
    decreases upto,
{
    if upto <= 0 {
        Seq::empty()
    } else {
        gathered(files, hash, upto - 1) + match chunk_payload(
            file_at(files, upto - 1),
            hash,
            upto - 1,
        ) {
            Some(chunk) => chunk.1,
            None => Seq::empty(),
        }
    }
}

/// Number of chunks of volumes `0` to `upto - 1` that are not missing.
pub open spec fn usable_chunks(files: Seq<Option<Seq<u8>>>, hash: Seq<u8>, upto: int) -> nat
    decreases upto,
{
    if upto <= 0 {
        0
    } else {
        usable_chunks(files, hash, upto - 1) + if chunk_payload(
            file_at(files, upto - 1),
            hash,
            upto - 1,
        ) is Some {
            1nat
        } else {
            0nat
        }
    }
}

/// The header of the first chunk of volumes `0` to `upto - 1` that is not missing.
pub open spec fn first_header(files: Seq<Option<Seq<u8>>>, hash: Seq<u8>, upto: int) -> Option<
    HeaderView,
>
    decreases upto,
{
    if upto <= 0 {
        None
    } else {
        match first_header(files, hash, upto - 1) {
            Some(h) => Some(h),
            None => match chunk_payload(file_at(files, upto - 1), hash, upto - 1) {
                Some(chunk) => Some(chunk.0),
                None => None,
            },
        }
    }
}

/// What `read_segment` returns. With fewer than `MIN_CHUNKS` chunks the segment is
/// beyond recovery: that is a `HashMismatch` if one of the files names another
/// segment, and a `CodecError` if not. Otherwise the codec decodes what was
/// gathered, with the secret shared between the node and the author named in the
/// first header.
pub open spec fn segment_plaintext(sk: Seq<u8>, hash: Seq<u8>, files: Seq<Option<Seq<u8>>>) -> Result<
    Seq<u8>,
    Error,
> {
    if usable_chunks(files, hash, VOLUME_COUNT as int) < MIN_CHUNKS {
        if other_segment_among(files, hash, VOLUME_COUNT as int) {
            Err(Error::HashMismatch)
        } else {
            Err(Error::CodecError)
        }
    } else {
        match first_header(files, hash, VOLUME_COUNT as int) {
            None => Err(Error::CodecError),
            Some(h) => match secp256k1_shared_secret(h.pubkey, sk) {
                None => Err(Error::KeyInvalid),
                Some(ss) => decode_result(
                    ss,
                    hash,
                    gathered(files, hash, VOLUME_COUNT as int),
                    h.padding_len,
                    NODE_FORMAT,
                ),
            },
        }
    }
}

/// The plaintexts of the first `upto` segments, one after the other, or the error
/// of the first segment that cannot be read.
pub open spec fn plaintext_upto(
    sk: Seq<u8>,
    hashes: Seq<Seq<u8>>,
    files: Seq<Seq<Option<Seq<u8>>>>,
    upto: int,
) -> Result<Seq<u8>, Error>
    decreases upto,
{
    if upto <= 0 {
        Ok(Seq::empty())
    } else {
        match plaintext_upto(sk, hashes, files, upto - 1) {
            Err(e) => Err(e),
            Ok(plain) => match segment_plaintext(
                sk,
                hashes[upto - 1],
                if upto - 1 < files.len() {
                    files[upto - 1]
                } else {
                    Seq::empty()
                },
            ) {
                Err(e) => Err(e),
                Ok(segment) => Ok(plain + segment),
            },
        }
    }
}

/// What `read_file` returns.
pub open spec fn file_plaintext(
    volumes: nat,
    sk: Seq<u8>,
    hashes: Seq<Seq<u8>>,
    files: Seq<Seq<Option<Seq<u8>>>>,
) -> Result<Seq<u8>, Error> {
    if volumes != VOLUME_COUNT {
        Err(Error::ConfigInvalid)
    } else {
        plaintext_upto(sk, hashes, files, hashes.len() as int)
    }
}

/// The segment hashes that a catalog lists.
pub open spec fn catalog_hashes(bytes: Seq<u8>) -> Seq<Seq<u8>> {
    Seq::new(bytes.len() / 32, |j: int| bytes.subrange(32 * j, 32 * j + 32))
}

/// The hashes of a catalog, which must list at least one and nothing else.
pub open spec fn parsed_catalog(bytes: Seq<u8>) -> Result<Seq<Seq<u8>>, Error> {
    if bytes.len() == 0 || bytes.len() % 32 != 0 {
        Err(Error::FormatViolation)
    } else {
        Ok(catalog_hashes(bytes))
    }
}

/// The first of the replicas `0` to `upto - 1` that is present.
pub open spec fn first_present(replicas: Seq<Option<Seq<u8>>>, upto: int) -> Option<Seq<u8>>
    decreases upto,
{
    if upto <= 0 {
        None
    } else {
        match first_present(replicas, upto - 1) {
            Some(bytes) => Some(bytes),
            None => file_at(replicas, upto - 1),
        }
    }
}

/// What `read_catalog` returns.
pub open spec fn catalog_of(replicas: Seq<Option<Seq<u8>>>) -> Result<Seq<Seq<u8>>, Error> {
    match first_present(replicas, replicas.len() as int) {
        None => Err(Error::NotFound),
        Some(bytes) => parsed_catalog(bytes),
    }
}

/// Reads the segment hashes out of a catalog.
pub fn parse_catalog(bytes: &[u8]) -> (res: Result<Vec<BaoHash>, Error>)
    ensures
        match parsed_catalog(bytes@) {
            Ok(v) => res matches Ok(hashes) && hash_views(hashes@) == v,
            Err(x) => res matches Err(e) && e == x,
        },
{
    if bytes.len() == 0 || bytes.len() % 32 != 0 {
        return Err(Error::FormatViolation);
    }
    let count: usize = bytes.len() / 32;
    let mut hashes: Vec<BaoHash> = Vec::new();
    let mut j: usize = 0;
    while j < count
        invariant
            j <= count,
            32 * count == bytes@.len(),
            bytes@.len() <= usize::MAX,
            hashes@.len() == j,
            forall|k: int|
                0 <= k < j ==> (#[trigger] hashes@[k])@ == bytes@.subrange(32 * k, 32 * k + 32),
        decreases count - j,
    {
        let chunk = slice_subrange(bytes, 32 * j, 32 * j + 32);
        let hash = array_from_slice::<32>(chunk);
        assert(hash@ =~= bytes@.subrange(32 * j, 32 * j + 32));
        hashes.push(BaoHash(hash));
        j = j + 1;
    }
    assert(hash_views(hashes@) =~= catalog_hashes(bytes@));
    Ok(hashes)
}

/// Reads a file's catalog from what the volumes hold under its hash: `replicas`
/// has, for each volume in order, the contents of its catalog file or `None`
/// where there is none. The first replica that is present decides.
pub fn read_catalog(replicas: &Vec<Option<Vec<u8>>>) -> (res: Result<Vec<BaoHash>, Error>)
    ensures
        match catalog_of(files_view(replicas@)) {
            Ok(v) => res matches Ok(hashes) && hash_views(hashes@) == v,
            Err(x) => res matches Err(e) && e == x,
        },
{
    let mut i: usize = 0;
    while i < replicas.len()
        invariant
            i <= replicas@.len(),
            first_present(files_view(replicas@), i as int) is None,
        decreases replicas@.len() - i,
    {
        match &replicas[i] {
            Some(bytes) => {
                proof {
                    lemma_first_present_stays(
                        files_view(replicas@),
                        i as int + 1,
                        replicas@.len() as int,
                    );
                }
                return parse_catalog(bytes.as_slice());
            },
            None => {},
        }
        i = i + 1;
    }
    Err(Error::NotFound)
}

/// Once a replica is found among the first `found`, looking at more does not change it.
pub proof fn lemma_first_present_stays(replicas: Seq<Option<Seq<u8>>>, found: int, upto: int)
    requires
        found <= upto,
        first_present(replicas, found) is Some,
    ensures
        first_present(replicas, upto) == first_present(replicas, found),
    decreases upto - found,
{
    if found < upto {
        lemma_first_present_stays(replicas, found, upto - 1);
    }
}

/// What a chunk file turned out to be.
pub enum ChunkRead<'a> {
    /// A chunk of the segment: its header and its payload.
    Usable(Header, &'a [u8]),
    /// A file whose header names another segment.
    OtherSegment,
    /// No file, or one that is malformed.
    Missing,
}

/// Looks at the chunk file of volume `chunk_index` for the segment `hash`.
pub fn read_chunk<'a>(file: &'a Option<Vec<u8>>, hash: &BaoHash, chunk_index: usize) -> (res:
    ChunkRead<'a>)
    ensures
        match res {
            ChunkRead::Usable(header, payload) => chunk_payload(
                file_view(*file),
                hash@,
                chunk_index as int,
            ) == Some((header@, payload@)),
            ChunkRead::OtherSegment => chunk_payload(file_view(*file), hash@, chunk_index as int)
                is None && names_other_segment(file_view(*file), hash@),
            ChunkRead::Missing => chunk_payload(file_view(*file), hash@, chunk_index as int)
                is None && !names_other_segment(file_view(*file), hash@),
        },
{
    match file {
        None => ChunkRead::Missing,
        Some(bytes) => match parse_header(bytes.as_slice()) {
            Err(_) => ChunkRead::Missing,
            Ok(header) => {
                if !bytes_equal(header.hash.as_slice(), hash.0.as_slice()) {
                    ChunkRead::OtherSegment
                } else if header.chunk_index as usize == chunk_index && header.format
                    == NODE_FORMAT && bytes.len() - HEADER_LEN == (header.encoded_len / 8)
                    as usize {
                    ChunkRead::Usable(
                        header,
                        slice_subrange(bytes.as_slice(), HEADER_LEN, bytes.len()),
                    )
                } else {
                    ChunkRead::Missing
                }
            },
        },
    }
}

/// Gathers the chunks of one segment from what was read of its files, and decodes
/// them with the secret shared between the node's key and the author's.
pub fn read_segment(private_key: &[u8; 32], hash: &BaoHash, files: &SegmentFiles) -> (res: Result<
    Vec<u8>,
    Error,
>)
    ensures
        match segment_plaintext(private_key@, hash@, files@) {
            Ok(v) => res matches Ok(plain) && plain@ == v,
            Err(x) => res matches Err(e) && e == x,
        },
{
    let mut ciphertext: Vec<u8> = Vec::new();
    let mut usable: usize = 0;
    let mut first: Option<Header> = None;
    let mut other_segment: bool = false;
    let mut i: usize = 0;
    while i < VOLUME_COUNT
        invariant
            i <= VOLUME_COUNT,
            ciphertext@ == gathered(files@, hash@, i as int),
            usable == usable_chunks(files@, hash@, i as int),
            usable <= i,
            other_segment == other_segment_among(files@, hash@, i as int),
            match first_header(files@, hash@, i as int) {
                Some(v) => first matches Some(h) && h@ == v,
                None => first is None,
            },
        decreases VOLUME_COUNT - i,
    {
        let absent: Option<Vec<u8>> = None;
        let file: &Option<Vec<u8>> = if i < files.chunks.len() {
            &files.chunks[i]
        } else {
            &absent
        };
        assert(file_view(*file) == file_at(files@, i as int));
        match read_chunk(file, hash, i) {
            ChunkRead::Usable(header, payload) => {
                let ghost before = ciphertext@;
                ciphertext.extend_from_slice(payload);
                assert(ciphertext@ =~= before + payload@);
                usable = usable + 1;
                if first.is_none() {
                    first = Some(header);
                }
            },
            ChunkRead::OtherSegment => {
                assert(ciphertext@ =~= ciphertext@ + Seq::<u8>::empty());
                other_segment = true;
            },
            ChunkRead::Missing => {
                assert(ciphertext@ =~= ciphertext@ + Seq::<u8>::empty());
            },
        }
        i = i + 1;
    }
    if usable < MIN_CHUNKS {
        if other_segment {
            return Err(Error::HashMismatch);
        }
        return Err(Error::CodecError);
    }
    match first {
        None => Err(Error::CodecError),
        Some(header) => match shared_secret(&header.pubkey, private_key) {
            None => Err(Error::KeyInvalid),
            Some(secret) => decode(
                secret.as_slice(),
                hash,
                ciphertext.as_slice(),
                header.padding_len,
                NODE_FORMAT,
            ),
        },
    }
}

/// Reassembles a file from its catalog and from what was read of the chunk files
/// of each of its segments, in catalog order. A segment whose files were not
/// handed in counts as having none.
pub fn read_file(cfg: &SysCfg, catalog: &Vec<BaoHash>, segments: &Vec<SegmentFiles>) -> (res:
    Result<Vec<u8>, Error>)
    ensures
        match file_plaintext(
            cfg.volumes@.len(),
            cfg.private_key@,
            hash_views(catalog@),
            segment_files_view(segments@),
        ) {
            Ok(v) => res matches Ok(plain) && plain@ == v,
            Err(x) => res matches Err(e) && e == x,
        },
{
    if cfg.volumes.len() != VOLUME_COUNT {
        return Err(Error::ConfigInvalid);
    }
    let ghost hashes = hash_views(catalog@);
    let ghost files = segment_files_view(segments@);
    let none = SegmentFiles { chunks: Vec::new() };
    assert(none@ =~= Seq::<Option<Seq<u8>>>::empty());
    let mut file_bytes: Vec<u8> = Vec::new();
    let mut j: usize = 0;
    while j < catalog.len()
        invariant
            j <= catalog@.len(),
            cfg.volumes@.len() == VOLUME_COUNT,
            hashes == hash_views(catalog@),
            files == segment_files_view(segments@),
            none@ == Seq::<Option<Seq<u8>>>::empty(),
            plaintext_upto(cfg.private_key@, hashes, files, j as int) == Ok::<Seq<u8>, Error>(
                file_bytes@,
            ),
        decreases catalog@.len() - j,
    {
        let segment_files: &SegmentFiles = if j < segments.len() {
            &segments[j]
        } else {
            &none
        };
        assert(hashes[j as int] == catalog@[j as int]@);
        assert(segment_files@ == if j < files.len() {
            files[j as int]
        } else {
            Seq::empty()
        });
        match read_segment(&cfg.private_key, &catalog[j], segment_files) {
            Ok(mut plain) => {
                let ghost before = file_bytes@;
                let ghost segment = plain@;
                file_bytes.append(&mut plain);
                assert(file_bytes@ =~= before + segment);
            },
            Err(e) => {
                proof {
                    lemma_plaintext_error_stays(
                        cfg.private_key@,
                        hashes,
                        files,
                        j as int + 1,
                        catalog@.len() as int,
                    );
                }
                return Err(e);
            },
        }
        j = j + 1;
    }
    Ok(file_bytes)
}

/// Once a segment cannot be read, the segments after it do not change the error.
pub proof fn lemma_plaintext_error_stays(
    sk: Seq<u8>,
    hashes: Seq<Seq<u8>>,
    files: Seq<Seq<Option<Seq<u8>>>>,
    failed: int,
    upto: int,
)
    requires
        failed <= upto,
        plaintext_upto(sk, hashes, files, failed) is Err,
    ensures
        plaintext_upto(sk, hashes, files, upto) == plaintext_upto(sk, hashes, files, failed),
    decreases upto - failed,
{
    if failed < upto {
        lemma_plaintext_error_stays(sk, hashes, files, failed, upto - 1);
    }
}

/// How an operation of the file system failed.
#[derive(Clone, Copy, Debug, PartialEq, Eq, Structural)]
pub enum IoFailure {
    /// The file to create is already there.
    AlreadyExists,
    /// The file to read is not there.
    NotFound,
    /// Any other failure.
    Other,
}

/// The text of the name of a directory of a volume.
pub open spec fn dir_text(dir: Dir) -> Seq<char> {
    match dir {
        Dir::Segment => segment_dir_text(),
        Dir::Catalog => catalog_dir_text(),
    }
}

/// Where a file lies on disk: in the directory `dir` of the volume.
pub fn file_path(volume: &Volume, dir: Dir, name: &str) -> (path: String)
    ensures
        path@ == joined(joined(volume.path@, dir_text(dir)), name@),
{
    proof {
        reveal_strlit("segments");
        reveal_strlit("catalogs");
    }
    assert(SEGMENT_DIR@ =~= segment_dir_text());
    assert(CATALOG_DIR@ =~= catalog_dir_text());
    let dir_path = match dir {
        Dir::Segment => join_path(volume.path.as_str(), SEGMENT_DIR),
        Dir::Catalog => join_path(volume.path.as_str(), CATALOG_DIR),
    };
    join_path(dir_path.as_str(), name)
}

/// Judges the creation of a chunk file or catalog replica: a file that is already
/// there stops the write with `AlreadyExists`, any other failure with `IoError`.
pub fn create_outcome(outcome: Result<(), IoFailure>) -> (res: Result<(), Error>)
    ensures
        res == (match outcome {
            Ok(_) => Ok::<(), Error>(()),
            Err(IoFailure::AlreadyExists) => Err::<(), Error>(Error::AlreadyExists),
            Err(_) => Err::<(), Error>(Error::IoError),
        }),
{
    match outcome {
        Ok(_) => Ok(()),
        Err(IoFailure::AlreadyExists) => Err(Error::AlreadyExists),
        Err(_) => Err(Error::IoError),
    }
}

/// Judges the reading of a chunk file or catalog replica: a file that is not
/// there is absent, any other failure stops the read with `IoError`.
pub fn read_outcome(outcome: Result<Vec<u8>, IoFailure>) -> (res: Result<Option<Vec<u8>>, Error>)
    ensures
        match outcome {
            Ok(bytes) => res matches Ok(Some(b)) && b@ == bytes@,
            Err(IoFailure::NotFound) => res matches Ok(None),
            Err(_) => res matches Err(e) && e == Error::IoError,
        },
{
    match outcome {
        Ok(bytes) => Ok(Some(bytes)),
        Err(IoFailure::NotFound) => Ok(None),
        Err(_) => Err(Error::IoError),
    }
}

} // verus!
