use vstd::prelude::*;
use crate::backend::fs::{
    catalog_bytes, catalog_hashes, catalog_writes_of, chunk_at, chunk_write_at, chunk_writes,
    chunks_write, encoded_at, encoded_segments, hashes_of, segment_count, segments_encode,
    write_plan_of, Dir, FileWriteView, WritePlanView,
};
use crate::codec::EncodedView;
use crate::constants::{HEADER_LEN, NODE_FORMAT, SEGMENT_SIZE, VOLUME_COUNT};
use crate::digest::file_hash_of;
use crate::error::Error;
use crate::header::{lemma_parsed_prefix, parsed, records, segment_file_text};
use crate::keys::secp256k1_shared_secret;
use crate::text::hex_lower;

verus! {

/// Each of the eight chunks of an encoded segment is an eighth of it long.
pub proof fn lemma_chunk_len(encoded: Seq<u8>, i: int)
    requires
        0 <= i < 8,
    ensures
        chunk_at(encoded, i).len() == encoded.len() / 8,
{
    let chunk_len = encoded.len() as int / 8;
    assert(0 <= i * chunk_len <= (i + 1) * chunk_len <= 8 * chunk_len && (i + 1) * chunk_len - i
        * chunk_len == chunk_len) by (nonlinear_arith)
        requires
            0 <= i < 8,
            chunk_len >= 0,
    ;
}

/// A catalog made of hashes of 32 bytes lists exactly those hashes.
pub proof fn lemma_catalog_lists_hashes(hashes: Seq<Seq<u8>>)
    requires
        forall|j: int| 0 <= j < hashes.len() ==> (#[trigger] hashes[j]).len() == 32,
    ensures
        catalog_bytes(hashes).len() == 32 * hashes.len(),
        catalog_hashes(catalog_bytes(hashes)) == hashes,
{
    let bytes = catalog_bytes(hashes);
    assert forall|j: int| 0 <= j < hashes.len() implies #[trigger] catalog_hashes(bytes)[j]
        == hashes[j] by {
        assert(bytes.subrange(32 * j, 32 * j + 32) =~= hashes[j]) by {
            assert forall|m: int| 0 <= m < 32 implies bytes.subrange(32 * j, 32 * j + 32)[m]
                == hashes[j][m] by {
                assert((32 * j + m) / 32 == j && (32 * j + m) % 32 == m);
            }
        }
    }
    assert(catalog_hashes(bytes) =~= hashes);
}

/// The parts of a plan: what stands at each place of it.
pub proof fn lemma_plan_parts(
    volumes: nat,
    sk: Seq<u8>,
    pk: Seq<u8>,
    data: Seq<u8>,
    catalog_present: bool,
    plan: WritePlanView,
)
    requires
        write_plan_of(volumes, sk, pk, data, catalog_present) == Ok::<WritePlanView, Error>(plan),
    ensures
        volumes == VOLUME_COUNT,
        !catalog_present,
        file_hash_of(pk, data) == Ok::<Seq<u8>, Error>(plan.file_hash),
        segments_encode(pk, data),
        secp256k1_shared_secret(pk, sk) is Some,
        chunks_write(secp256k1_shared_secret(pk, sk)->Some_0, pk, encoded_segments(pk, data)),
        plan.writes.len() == 8 * segment_count(data.len()) + 8,
        forall|k: int|
            0 <= k < 8 * segment_count(data.len()) ==> #[trigger] plan.writes[k] == chunk_write_at(
                secp256k1_shared_secret(pk, sk)->Some_0,
                pk,
                encoded_segments(pk, data),
                k,
            )->Ok_0,
        forall|i: int|
            0 <= i < 8 ==> #[trigger] plan.writes[8 * segment_count(data.len()) + i]
                == catalog_writes_of(plan.file_hash, hashes_of(encoded_segments(pk, data)))[i],
{
    let ss = secp256k1_shared_secret(pk, sk)->Some_0;
    let segments = encoded_segments(pk, data);
    let chunks = chunk_writes(ss, pk, segments);
    let replicas = catalog_writes_of(plan.file_hash, hashes_of(segments));
    assert(plan.writes == chunks + replicas);
    assert forall|i: int| 0 <= i < 8 implies #[trigger] plan.writes[8 * segment_count(data.len())
        + i] == replicas[i] by {
        assert((chunks + replicas)[chunks.len() + i] == replicas[i]);
    }
}

/// Every catalog replica that a plan creates lists one hash of 32 bytes for each
/// segment of the plaintext: as many as the plaintext has full segments, and one more.
pub proof fn lemma_segment_count(
    volumes: nat,
    sk: Seq<u8>,
    pk: Seq<u8>,
    data: Seq<u8>,
    catalog_present: bool,
    plan: WritePlanView,
)
    requires
        write_plan_of(volumes, sk, pk, data, catalog_present) == Ok::<WritePlanView, Error>(plan),
    ensures
        forall|k: int|
            0 <= k < plan.writes.len() && (#[trigger] plan.writes[k]).dir == Dir::Catalog ==> {
                &&& plan.writes[k].contents.len() % 32 == 0
                &&& plan.writes[k].contents.len() / 32 == data.len() / (SEGMENT_SIZE as nat) + 1
            },
{
    lemma_plan_parts(volumes, sk, pk, data, catalog_present, plan);
    let count = segment_count(data.len()) as int;
    let ss = secp256k1_shared_secret(pk, sk)->Some_0;
    let segments = encoded_segments(pk, data);
    assert forall|k: int|
        0 <= k < plan.writes.len() && (#[trigger] plan.writes[k]).dir == Dir::Catalog implies {
        &&& plan.writes[k].contents.len() % 32 == 0
        &&& plan.writes[k].contents.len() / 32 == data.len() / (SEGMENT_SIZE as nat) + 1
    } by {
        if k < 8 * count {
            assert(chunk_write_at(ss, pk, segments, k) is Ok);
        } else {
            let i = k - 8 * count;
            assert(plan.writes[8 * count + i] == catalog_writes_of(
                plan.file_hash,
                hashes_of(segments),
            )[i]);
            assert(plan.writes[k].contents.len() == 32 * count);
        }
    }
}

/// The chunk file that a plan creates for chunk `i` of segment `j` is for volume
/// `i`, is named after the hash that the catalog lists for segment `j`, and is a
/// header followed by an eighth of the encoded segment. The header records that
/// hash, the chunk index `i`, the node's format and the author's key; its two
/// lengths are those of the segment's first chunk file, and so of all eight.
pub proof fn lemma_chunk_invariant(
    volumes: nat,
    sk: Seq<u8>,
    pk: Seq<u8>,
    data: Seq<u8>,
    catalog_present: bool,
    plan: WritePlanView,
    j: int,
    i: int,
)
    requires
        write_plan_of(volumes, sk, pk, data, catalog_present) == Ok::<WritePlanView, Error>(plan),
        0 <= j < segment_count(data.len()),
        0 <= i < 8,
    ensures
        ({
            let file = plan.writes[8 * j + i];
            let first = plan.writes[8 * j];
            let catalog = plan.writes[8 * (segment_count(data.len()) as int)].contents;
            let hash = catalog_hashes(catalog)[j];
            &&& file.volume == i
            &&& file.dir == Dir::Segment
            &&& file.name == segment_file_text(hash, NODE_FORMAT)
            &&& parsed(file.contents) matches Some(h)
            &&& parsed(first.contents) matches Some(h0)
            &&& h.hash == hash
            &&& h.chunk_index == i
            &&& h.format == NODE_FORMAT
            &&& h.pubkey == pk
            &&& h.encoded_len == h0.encoded_len
            &&& h.padding_len == h0.padding_len
            &&& file.contents.len() == HEADER_LEN + h.encoded_len / 8
        }),
{
    lemma_plan_parts(volumes, sk, pk, data, catalog_present, plan);
    let count = segment_count(data.len()) as int;
    let ss = secp256k1_shared_secret(pk, sk)->Some_0;
    let segments = encoded_segments(pk, data);
    let hashes = hashes_of(segments);
    assert forall|m: int| 0 <= m < hashes.len() implies (#[trigger] hashes[m]).len() == 32 by {
        assert(encoded_at(pk, data, m) is Ok);
    }
    lemma_catalog_lists_hashes(hashes);
    assert(plan.writes[8 * count + 0] == catalog_writes_of(plan.file_hash, hashes)[0]);
    assert(encoded_at(pk, data, j) is Ok);
    let segment = segments[j];
    lemma_chunk_file(ss, pk, segments, 8 * j + i);
    lemma_chunk_file(ss, pk, segments, 8 * j);
    assert((8 * j + i) / 8 == j && (8 * j + i) % 8 == i);
    assert((8 * j) / 8 == j && (8 * j) % 8 == 0);
    assert(plan.writes[8 * j + i] == chunk_write_at(ss, pk, segments, 8 * j + i)->Ok_0);
    assert(plan.writes[8 * j] == chunk_write_at(ss, pk, segments, 8 * j)->Ok_0);
    lemma_chunk_len(segment.bytes, i);
}

/// What the `k`-th chunk file of a plan holds, if a header could be made for it.
pub proof fn lemma_chunk_file(ss: Seq<u8>, pk: Seq<u8>, segments: Seq<EncodedView>, k: int)
    requires
        0 <= k,
        chunk_write_at(ss, pk, segments, k) is Ok,
    ensures
        ({
            let segment = segments[k / 8];
            let file = chunk_write_at(ss, pk, segments, k)->Ok_0;
            &&& file.volume == k % 8
            &&& file.dir == Dir::Segment
            &&& file.name == segment_file_text(segment.hash, NODE_FORMAT)
            &&& file.contents.len() == HEADER_LEN + chunk_at(segment.bytes, k % 8).len()
            &&& file.contents.subrange(HEADER_LEN as int, file.contents.len() as int) == chunk_at(
                segment.bytes,
                k % 8,
            )
            &&& parsed(file.contents) matches Some(h)
            &&& h.pubkey == pk
            &&& h.hash == segment.hash
            &&& h.format == NODE_FORMAT
            &&& h.chunk_index == k % 8
            &&& h.encoded_len == segment.layout.output_len
            &&& h.padding_len == segment.layout.padding_len
        }),
{
    let segment = segments[k / 8];
    let i = k % 8;
    let chunk = chunk_at(segment.bytes, i);
    let head = crate::header::header_result(
        ss,
        pk,
        segment.hash,
        NODE_FORMAT,
        i as u8,
        segment.layout.output_len,
        segment.layout.padding_len,
    )->Ok_0;
    assert(records(
        head,
        pk,
        segment.hash,
        NODE_FORMAT,
        i as u8,
        segment.layout.output_len,
        segment.layout.padding_len,
    ));
    lemma_parsed_prefix(head, chunk);
    assert((head + chunk).subrange(HEADER_LEN as int, (head + chunk).len() as int) =~= chunk);
}

/// The eight catalog replicas that a plan creates are for the eight volumes in
/// order, are all named by the file hash in hexadecimal, and hold the same bytes.
pub proof fn lemma_catalog_replicas(
    volumes: nat,
    sk: Seq<u8>,
    pk: Seq<u8>,
    data: Seq<u8>,
    catalog_present: bool,
    plan: WritePlanView,
)
    requires
        write_plan_of(volumes, sk, pk, data, catalog_present) == Ok::<WritePlanView, Error>(plan),
    ensures
        forall|i: int|
            0 <= i < 8 ==> {
                let replica = #[trigger] plan.writes[8 * segment_count(data.len()) + i];
                &&& replica.volume == i
                &&& replica.dir == Dir::Catalog
                &&& replica.name == hex_lower(plan.file_hash)
                &&& replica.contents == plan.writes[8 * (segment_count(data.len()) as int)].contents
            },
{
    lemma_plan_parts(volumes, sk, pk, data, catalog_present, plan);
    let count = segment_count(data.len()) as int;
    assert(plan.writes[8 * count + 0] == catalog_writes_of(
        plan.file_hash,
        hashes_of(encoded_segments(pk, data)),
    )[0]);
}

/// In a plan every chunk file stands before every catalog replica: a catalog is
/// not created before all the chunks that it lists.
pub proof fn lemma_catalog_after_chunks(
    volumes: nat,
    sk: Seq<u8>,
    pk: Seq<u8>,
    data: Seq<u8>,
    catalog_present: bool,
    plan: WritePlanView,
)
    requires
        write_plan_of(volumes, sk, pk, data, catalog_present) == Ok::<WritePlanView, Error>(plan),
    ensures
        forall|a: int, b: int|
            0 <= a < plan.writes.len() && 0 <= b < plan.writes.len() && (
            #[trigger] plan.writes[a]).dir == Dir::Segment && (#[trigger] plan.writes[b]).dir
                == Dir::Catalog ==> a < b,
{
    lemma_plan_parts(volumes, sk, pk, data, catalog_present, plan);
    let count = segment_count(data.len()) as int;
    let ss = secp256k1_shared_secret(pk, sk)->Some_0;
    let segments = encoded_segments(pk, data);
    assert forall|a: int, b: int|
        0 <= a < plan.writes.len() && 0 <= b < plan.writes.len() && (
        #[trigger] plan.writes[a]).dir == Dir::Segment && (#[trigger] plan.writes[b]).dir
            == Dir::Catalog implies a < b by {
        if a >= 8 * count {
            let i = a - 8 * count;
            assert(plan.writes[8 * count + i] == catalog_writes_of(
                plan.file_hash,
                hashes_of(segments),
            )[i]);
        }
        if b < 8 * count {
            assert(chunk_write_at(ss, pk, segments, b) is Ok);
        }
    }
}

/// The content address of a file depends on nothing but the author's key and
/// the plaintext: two plans for the same bytes under the same key, on whatever
/// nodes and stores, carry the same file hash.
pub proof fn lemma_file_hash_deterministic(
    pk: Seq<u8>,
    data: Seq<u8>,
    volumes1: nat,
    sk1: Seq<u8>,
    present1: bool,
    plan1: WritePlanView,
    volumes2: nat,
    sk2: Seq<u8>,
    present2: bool,
    plan2: WritePlanView,
)
    requires
        write_plan_of(volumes1, sk1, pk, data, present1) == Ok::<WritePlanView, Error>(plan1),
        write_plan_of(volumes2, sk2, pk, data, present2) == Ok::<WritePlanView, Error>(plan2),
    ensures
        plan1.file_hash == plan2.file_hash,
        file_hash_of(pk, data) == Ok::<Seq<u8>, Error>(plan1.file_hash),
{
}

} // verus!
