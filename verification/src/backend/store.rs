use vstd::prelude::*;
use crate::backend::fs::{
    catalog_bytes, catalog_hashes, catalog_of, catalog_writes_of, chunk_at, chunk_payload,
    chunk_write_at, encoded_at, encoded_segments, file_at, file_plaintext, first_header,
    first_present, gathered, hashes_of, lemma_first_present_stays, parsed_catalog, plaintext_upto,
    segment_at, segment_count, segment_plaintext, usable_chunks, write_plan_of, Dir,
    FileWriteView, WritePlanView,
};
use crate::backend::plan::{
    lemma_catalog_lists_hashes, lemma_chunk_file, lemma_chunk_len, lemma_plan_parts,
};
use crate::codec::decode_result;
use crate::constants::{NODE_FORMAT, SEGMENT_SIZE, VOLUME_COUNT};
use crate::error::Error;
use crate::header::segment_file_text;
use crate::keys::secp256k1_shared_secret;
use crate::text::hex_lower;

verus! {

/// Where a file lies: on which volume, in which directory, under which name.
pub struct FileKey {
    pub volume: int,
    pub dir: Dir,
    pub name: Seq<char>,
}

/// Where a write puts its file.
pub open spec fn key_of(write: FileWriteView) -> FileKey {
    FileKey { volume: write.volume, dir: write.dir, name: write.name }
}

/// The files of a store after one more is created; a file that is already there
/// is left as it is, and the creation fails.
pub open spec fn created(store: Map<FileKey, Seq<u8>>, write: FileWriteView) -> Result<
    Map<FileKey, Seq<u8>>,
    Error,
> {
    if store.contains_key(key_of(write)) {
        Err(Error::AlreadyExists)
    } else {
        Ok(store.insert(key_of(write), write.contents))
    }
}

/// The files of a store after the first `upto` of `writes` were carried out in
/// order, or the error of the first that failed.
pub open spec fn applied(store: Map<FileKey, Seq<u8>>, writes: Seq<FileWriteView>, upto: int) -> Result<
    Map<FileKey, Seq<u8>>,
    Error,
>
    decreases upto,
{
    if upto <= 0 {
        Ok(store)
    } else {
        match applied(store, writes, upto - 1) {
            Err(e) => Err(e),
            Ok(before) => created(before, writes[upto - 1]),
        }
    }
}

/// The contents of a file of a store, if it is there.
pub open spec fn lookup(store: Map<FileKey, Seq<u8>>, key: FileKey) -> Option<Seq<u8>> {
    if store.contains_key(key) {
        Some(store[key])
    } else {
        None
    }
}

/// Where the catalog replica of a file lies on a volume.
pub open spec fn catalog_key(volume: int, file_hash: Seq<u8>) -> FileKey {
    FileKey { volume, dir: Dir::Catalog, name: hex_lower(file_hash) }
}

/// Where the chunk file of a segment lies on a volume.
pub open spec fn chunk_key(volume: int, hash: Seq<u8>) -> FileKey {
    FileKey { volume, dir: Dir::Segment, name: segment_file_text(hash, NODE_FORMAT) }
}

/// Whether the primary volume holds a catalog for the file.
pub open spec fn catalog_present(store: Map<FileKey, Seq<u8>>, file_hash: Seq<u8>) -> bool {
    store.contains_key(catalog_key(0, file_hash))
}

/// What the eight volumes hold as the catalog of a file.
pub open spec fn catalog_replicas(store: Map<FileKey, Seq<u8>>, file_hash: Seq<u8>) -> Seq<
    Option<Seq<u8>>,
> {
    Seq::new(VOLUME_COUNT as nat, |i: int| lookup(store, catalog_key(i, file_hash)))
}

/// What the eight volumes hold as the chunk files of a segment.
pub open spec fn chunk_files(store: Map<FileKey, Seq<u8>>, hash: Seq<u8>) -> Seq<Option<Seq<u8>>> {
    Seq::new(VOLUME_COUNT as nat, |i: int| lookup(store, chunk_key(i, hash)))
}

/// What the chunk files of each of the segments hold.
pub open spec fn segment_files(store: Map<FileKey, Seq<u8>>, hashes: Seq<Seq<u8>>) -> Seq<
    Seq<Option<Seq<u8>>>,
> {
    Seq::new(hashes.len(), |j: int| chunk_files(store, hashes[j]))
}

/// What reading a file from a store returns: the catalog is read from the
/// volumes, and the file from the chunk files of the segments that the catalog lists.
pub open spec fn stored_plaintext(
    volumes: nat,
    sk: Seq<u8>,
    store: Map<FileKey, Seq<u8>>,
    file_hash: Seq<u8>,
) -> Result<Seq<u8>, Error> {
    match catalog_of(catalog_replicas(store, file_hash)) {
        Err(e) => Err(e),
        Ok(hashes) => file_plaintext(volumes, sk, hashes, segment_files(store, hashes)),
    }
}

/// Whether the codec decodes every encoded segment of `data` back to the segment,
/// with the secret that the node shares with the author.
pub open spec fn codec_inverts(sk: Seq<u8>, pk: Seq<u8>, data: Seq<u8>) -> bool {
    forall|j: int|
        0 <= j < segment_count(data.len()) ==> {
            let segment = (#[trigger] encoded_at(pk, data, j))->Ok_0;
            decode_result(
                secp256k1_shared_secret(pk, sk)->Some_0,
                segment.hash,
                segment.bytes,
                segment.layout.padding_len,
                NODE_FORMAT,
            ) == Ok::<Seq<u8>, Error>(segment_at(data, j))
        }
}

/// After writes were carried out with success, the store holds each of the files
/// they created, with the contents given, and every file it held before, unchanged.
pub proof fn lemma_applied_holds(
    store: Map<FileKey, Seq<u8>>,
    writes: Seq<FileWriteView>,
    upto: int,
    after: Map<FileKey, Seq<u8>>,
)
    requires
        0 <= upto <= writes.len(),
        applied(store, writes, upto) == Ok::<Map<FileKey, Seq<u8>>, Error>(after),
    ensures
        forall|k: int|
            0 <= k < upto ==> lookup(after, #[trigger] key_of(writes[k])) == Some(
                writes[k].contents,
            ),
        forall|key: FileKey| #[trigger]
            store.contains_key(key) ==> lookup(after, key) == Some(store[key]),
    decreases upto,
{
    if upto > 0 {
        let before = applied(store, writes, upto - 1)->Ok_0;
        lemma_applied_holds(store, writes, upto - 1, before);
        let last = writes[upto - 1];
        assert(!before.contains_key(key_of(last)));
        assert(after == before.insert(key_of(last), last.contents));
        assert forall|k: int| 0 <= k < upto implies lookup(after, #[trigger] key_of(writes[k]))
            == Some(writes[k].contents) by {
            if k < upto - 1 {
                assert(lookup(before, key_of(writes[k])) == Some(writes[k].contents));
            }
        }
        assert forall|key: FileKey| #[trigger] store.contains_key(key) implies lookup(after, key)
            == Some(store[key]) by {
            assert(lookup(before, key) == Some(store[key]));
        }
    }
}

/// A second write of a file is refused. Once the plan of a write was carried out,
/// the primary volume holds the file's catalog; `write_file`, told so, returns
/// `AlreadyExists` and no plan, so that nothing is created or changed.
pub proof fn lemma_second_write_refused(
    volumes: nat,
    sk: Seq<u8>,
    pk: Seq<u8>,
    data: Seq<u8>,
    present: bool,
    plan: WritePlanView,
    store: Map<FileKey, Seq<u8>>,
    after: Map<FileKey, Seq<u8>>,
)
    requires
        write_plan_of(volumes, sk, pk, data, present) == Ok::<WritePlanView, Error>(plan),
        applied(store, plan.writes, plan.writes.len() as int) == Ok::<
            Map<FileKey, Seq<u8>>,
            Error,
        >(after),
    ensures
        catalog_present(after, plan.file_hash),
        write_plan_of(volumes, sk, pk, data, catalog_present(after, plan.file_hash)) == Err::<
            WritePlanView,
            Error,
        >(Error::AlreadyExists),
{
    lemma_plan_parts(volumes, sk, pk, data, present, plan);
    lemma_applied_holds(store, plan.writes, plan.writes.len() as int, after);
    let count = segment_count(data.len()) as int;
    let replica = plan.writes[8 * count + 0];
    assert(replica == catalog_writes_of(plan.file_hash, hashes_of(encoded_segments(pk, data)))[0]);
    assert(key_of(replica) == catalog_key(0, plan.file_hash));
    assert(lookup(after, key_of(replica)) is Some);
}

/// The first `upto` chunks of an encoded segment, gathered from files that hold
/// them all, are the segment up to there; each of them counts, and the first
/// header is that of the chunk of volume 0.
pub proof fn lemma_gathered_whole(
    files: Seq<Option<Seq<u8>>>,
    hash: Seq<u8>,
    bytes: Seq<u8>,
    upto: int,
)
    requires
        0 <= upto <= 8,
        forall|i: int|
            0 <= i < 8 ==> (#[trigger] chunk_payload(file_at(files, i), hash, i) matches Some(c)
                && c.1 == chunk_at(bytes, i)),
    ensures
        gathered(files, hash, upto) == bytes.subrange(0, upto * (bytes.len() / 8)),
        usable_chunks(files, hash, upto) == upto,
        upto > 0 ==> first_header(files, hash, upto) == Some(
            chunk_payload(file_at(files, 0), hash, 0)->Some_0.0,
        ),
    decreases upto,
{
    let chunk_len = bytes.len() as int / 8;
    if upto > 0 {
        lemma_gathered_whole(files, hash, bytes, upto - 1);
        let i = upto - 1;
        assert(chunk_payload(file_at(files, i), hash, i) is Some);
        assert(0 <= i * chunk_len <= (i + 1) * chunk_len <= 8 * chunk_len) by (nonlinear_arith)
            requires
                0 <= i < 8,
                chunk_len >= 0,
        ;
        assert(bytes.subrange(0, i * chunk_len) + chunk_at(bytes, i) =~= bytes.subrange(
            0,
            upto * chunk_len,
        ));
        if upto == 1 {
            assert(first_header(files, hash, 0) is None);
        }
    } else {
        assert(gathered(files, hash, upto) =~= bytes.subrange(0, 0));
    }
}

/// The plaintexts of the first `upto` segments of `data`, one after the other,
/// are `data` up to there.
pub proof fn lemma_segments_join(
    sk: Seq<u8>,
    hashes: Seq<Seq<u8>>,
    files: Seq<Seq<Option<Seq<u8>>>>,
    data: Seq<u8>,
    upto: int,
)
    requires
        0 <= upto <= segment_count(data.len()),
        hashes.len() == segment_count(data.len()),
        files.len() == hashes.len(),
        forall|j: int|
            0 <= j < hashes.len() ==> #[trigger] segment_plaintext(sk, hashes[j], files[j]) == Ok::<
                Seq<u8>,
                Error,
            >(segment_at(data, j)),
    ensures
        plaintext_upto(sk, hashes, files, upto) == Ok::<Seq<u8>, Error>(
            data.subrange(
                0,
                if upto * SEGMENT_SIZE <= data.len() {
                    upto * SEGMENT_SIZE
                } else {
                    data.len() as int
                },
            ),
        ),
    decreases upto,
{
    if upto > 0 {
        lemma_segments_join(sk, hashes, files, data, upto - 1);
        let j = upto - 1;
        assert(segment_plaintext(sk, hashes[j], files[j]) == Ok::<Seq<u8>, Error>(
            segment_at(data, j),
        ));
        assert(j * SEGMENT_SIZE <= data.len());
        let end = if upto * SEGMENT_SIZE <= data.len() {
            upto * SEGMENT_SIZE
        } else {
            data.len() as int
        };
        assert(data.subrange(0, j * SEGMENT_SIZE) + segment_at(data, j) =~= data.subrange(0, end));
    } else {
        assert(data.subrange(0, 0) =~= Seq::<u8>::empty());
    }
}

/// Where the codec decodes each encoded segment of a file back to the segment,
/// reading the file from a store in which its plan was carried out returns the
/// plaintext that was written.
pub proof fn lemma_read_returns_written_where_codec_inverts(
    volumes: nat,
    sk: Seq<u8>,
    pk: Seq<u8>,
    data: Seq<u8>,
    present: bool,
    plan: WritePlanView,
    store: Map<FileKey, Seq<u8>>,
    after: Map<FileKey, Seq<u8>>,
)
    requires
        write_plan_of(volumes, sk, pk, data, present) == Ok::<WritePlanView, Error>(plan),
        applied(store, plan.writes, plan.writes.len() as int) == Ok::<
            Map<FileKey, Seq<u8>>,
            Error,
        >(after),
        codec_inverts(sk, pk, data),
    ensures
        stored_plaintext(volumes, sk, after, plan.file_hash) == Ok::<Seq<u8>, Error>(data),
{
    lemma_plan_parts(volumes, sk, pk, data, present, plan);
    lemma_applied_holds(store, plan.writes, plan.writes.len() as int, after);
    let count = segment_count(data.len()) as int;
    let ss = secp256k1_shared_secret(pk, sk)->Some_0;
    let segments = encoded_segments(pk, data);
    let hashes = hashes_of(segments);
    assert forall|m: int| 0 <= m < hashes.len() implies (#[trigger] hashes[m]).len() == 32 by {
        assert(encoded_at(pk, data, m) is Ok);
    }
    lemma_catalog_lists_hashes(hashes);
    // The catalog read back is the one written.
    let replicas = catalog_replicas(after, plan.file_hash);
    let replica = plan.writes[8 * count + 0];
    assert(replica == catalog_writes_of(plan.file_hash, hashes)[0]);
    assert(key_of(replica) == catalog_key(0, plan.file_hash));
    assert(replicas[0] == Some(catalog_bytes(hashes)));
    assert(first_present(replicas, 1) == Some(catalog_bytes(hashes))) by {
        assert(first_present(replicas, 0) is None);
    }
    lemma_first_present_stays(replicas, 1, 8);
    assert(catalog_of(replicas) == Ok::<Seq<Seq<u8>>, Error>(hashes));
    // Each segment read back is the one written.
    let files = segment_files(after, hashes);
    assert forall|j: int| 0 <= j < hashes.len() implies #[trigger] segment_plaintext(
        sk,
        hashes[j],
        files[j],
    ) == Ok::<Seq<u8>, Error>(segment_at(data, j)) by {
        assert(encoded_at(pk, data, j) is Ok);
        let segment = segments[j];
        assert forall|i: int| 0 <= i < 8 implies (#[trigger] chunk_payload(
            file_at(files[j], i),
            hashes[j],
            i,
        ) matches Some(c) && c.1 == chunk_at(segment.bytes, i) && c.0.pubkey == pk
            && c.0.padding_len == segment.layout.padding_len) by {
            let k = 8 * j + i;
            assert(k / 8 == j && k % 8 == i);
            assert(chunk_write_at(ss, pk, segments, k) is Ok);
            lemma_chunk_file(ss, pk, segments, k);
            lemma_chunk_len(segment.bytes, i);
            let file = plan.writes[k];
            assert(file == chunk_write_at(ss, pk, segments, k)->Ok_0);
            assert(key_of(file) == chunk_key(i, hashes[j]));
            assert(lookup(after, key_of(plan.writes[k])) == Some(plan.writes[k].contents));
            assert(file_at(files[j], i) == Some(file.contents));
        }
        lemma_gathered_whole(files[j], hashes[j], segment.bytes, 8);
        assert(segment.bytes.subrange(0, 8 * (segment.bytes.len() as int / 8)) =~= segment.bytes);
    }
    lemma_segments_join(sk, hashes, files, data, count);
    assert(data.subrange(0, data.len() as int) =~= data);
}

} // verus!
