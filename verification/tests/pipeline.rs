use std::collections::HashMap;

use carbonado_node::backend::fs::{
    create_outcome, file_path, read_catalog, read_file, read_outcome, write_file, Dir, IoFailure,
    SegmentFiles, WritePlan,
};
use carbonado_node::config::{SysCfg, Volume};
use carbonado_node::constants::{HEADER_LEN, NODE_FORMAT, SEGMENT_SIZE};
use carbonado_node::digest::file_hash;
use carbonado_node::error::Error;
use carbonado_node::header::{parse_header, segment_file_name};
use carbonado_node::structs::{BaoHash, Blake3Hash, Secp256k1PubKey};

type Store = HashMap<(usize, bool, String), Vec<u8>>;

fn node_cfg(volumes: usize) -> SysCfg {
    SysCfg {
        private_key: [0x11; 32],
        volumes: (0..volumes)
            .map(|i| Volume { path: format!("/tmp/carbonado-{i}") })
            .collect(),
        capacity: 1000,
    }
}

fn author_key(seed: u8) -> Secp256k1PubKey {
    let secp = secp256k1::Secp256k1::new();
    let sk = secp256k1::SecretKey::from_slice(&[seed; 32]).unwrap();
    Secp256k1PubKey(secp256k1::PublicKey::from_secret_key(&secp, &sk).serialize())
}

fn apply(store: &mut Store, plan: &WritePlan) -> Result<(), Error> {
    for write in plan.writes.iter() {
        let key = (write.volume, write.dir == Dir::Catalog, write.name.clone());
        let created = if store.contains_key(&key) {
            Err(IoFailure::AlreadyExists)
        } else {
            store.insert(key, write.contents.clone());
            Ok(())
        };
        create_outcome(created)?;
    }
    Ok(())
}

fn store_file(
    store: &mut Store,
    cfg: &SysCfg,
    pk: &Secp256k1PubKey,
    bytes: &[u8],
) -> Result<Blake3Hash, Error> {
    let hash = file_hash(pk, bytes)?;
    let present = store.contains_key(&(0, true, hash.to_string()));
    let plan = write_file(cfg, pk, bytes, present)?;
    apply(store, &plan)?;
    Ok(plan.file_hash)
}

fn fetch(store: &Store, key: (usize, bool, String)) -> Option<Vec<u8>> {
    let outcome = match store.get(&key) {
        Some(bytes) => Ok(bytes.clone()),
        None => Err(IoFailure::NotFound),
    };
    read_outcome(outcome).unwrap()
}

fn load_catalog(store: &Store, hash: &Blake3Hash) -> Result<Vec<BaoHash>, Error> {
    let replicas: Vec<Option<Vec<u8>>> =
        (0..8).map(|i| fetch(store, (i, true, hash.to_string()))).collect();
    read_catalog(&replicas)
}

fn load_file(store: &Store, cfg: &SysCfg, hash: &Blake3Hash) -> Result<Vec<u8>, Error> {
    let catalog = load_catalog(store, hash)?;
    let segments: Vec<SegmentFiles> = catalog
        .iter()
        .map(|bh| SegmentFiles {
            chunks: (0..8)
                .map(|i| fetch(store, (i, false, segment_file_name(bh, NODE_FORMAT))))
                .collect(),
        })
        .collect();
    read_file(cfg, &catalog, &segments)
}

fn patterned(len: usize) -> Vec<u8> {
    (0..len).map(|i| (i % 251) as u8).collect()
}

#[test]
fn hello_is_read_back() {
    let cfg = node_cfg(8);
    let pk = author_key(0x22);
    let mut store = Store::new();
    let hash = store_file(&mut store, &cfg, &pk, b"hello").unwrap();
    assert_eq!(store.len(), 16);
    assert_eq!(load_file(&store, &cfg, &hash), Ok(b"hello".to_vec()));
}

#[test]
fn empty_file_is_read_back() {
    let cfg = node_cfg(8);
    let pk = author_key(0x22);
    let mut store = Store::new();
    let hash = store_file(&mut store, &cfg, &pk, b"").unwrap();
    assert_eq!(load_catalog(&store, &hash).unwrap().len(), 1);
    assert_eq!(load_file(&store, &cfg, &hash), Ok(Vec::new()));
}

#[test]
fn file_of_three_segments_is_read_back() {
    let cfg = node_cfg(8);
    let pk = author_key(0x22);
    let bytes = patterned(2 * SEGMENT_SIZE + 12345);
    let mut store = Store::new();
    let hash = store_file(&mut store, &cfg, &pk, &bytes).unwrap();
    assert_eq!(load_catalog(&store, &hash).unwrap().len(), 3);
    assert_eq!(store.len(), 3 * 8 + 8);
    assert_eq!(load_file(&store, &cfg, &hash), Ok(bytes));
}

#[test]
fn one_full_segment_makes_two_segments() {
    let cfg = node_cfg(8);
    let pk = author_key(0x22);
    let bytes = vec![0u8; SEGMENT_SIZE];
    let plan = write_file(&cfg, &pk, &bytes, false).unwrap();
    let chunks = plan.writes.iter().filter(|w| w.dir == Dir::Segment).count();
    let catalogs = plan.writes.iter().filter(|w| w.dir == Dir::Catalog).count();
    assert_eq!(chunks, 16);
    assert_eq!(catalogs, 8);
    let catalog = &plan.writes[16].contents;
    assert_eq!(catalog.len() / 32, bytes.len() / SEGMENT_SIZE + 1);
    assert_ne!(catalog[0..32], catalog[32..64]);
    let mut store = Store::new();
    apply(&mut store, &plan).unwrap();
    assert_eq!(load_file(&store, &cfg, &plan.file_hash), Ok(bytes));
}

#[test]
fn check_catalog_exists() {
    let cfg = node_cfg(8);
    let pk = author_key(0x22);
    let file_bytes = patterned(70_000);
    let mut store = Store::new();
    store_file(&mut store, &cfg, &pk, &file_bytes).unwrap();
    let blake3_hash = store_file(&mut store, &cfg, &pk, &file_bytes).is_err();
    assert!(blake3_hash);
}

#[test]
fn delete_file_by_blake3hash() {
    let (_sk, _pk) = secp256k1::generate_keypair(&mut secp256k1::rand::thread_rng());
    let _key = Secp256k1PubKey(_pk.serialize());
}

#[test]
fn second_write_is_refused_and_changes_nothing() {
    let cfg = node_cfg(8);
    let pk = author_key(0x22);
    let mut store = Store::new();
    store_file(&mut store, &cfg, &pk, b"hello").unwrap();
    let before = store.clone();
    assert_eq!(store_file(&mut store, &cfg, &pk, b"hello").err(), Some(Error::AlreadyExists));
    assert_eq!(store, before);
    assert_eq!(write_file(&cfg, &pk, b"hello", true).err(), Some(Error::AlreadyExists));
}

#[test]
fn leftover_chunk_file_stops_the_write() {
    let cfg = node_cfg(8);
    let pk = author_key(0x22);
    let plan = write_file(&cfg, &pk, b"hello", false).unwrap();
    let mut store = Store::new();
    let stray = &plan.writes[5];
    store.insert((stray.volume, false, stray.name.clone()), vec![1, 2, 3]);
    assert_eq!(apply(&mut store, &plan), Err(Error::AlreadyExists));
}

#[test]
fn seven_volumes_are_refused() {
    let cfg = node_cfg(7);
    let pk = author_key(0x22);
    assert_eq!(write_file(&cfg, &pk, b"hello", false).err(), Some(Error::ConfigInvalid));
    let mut store = Store::new();
    let hash = store_file(&mut store, &node_cfg(8), &pk, b"hello").unwrap();
    assert_eq!(load_file(&store, &cfg, &hash), Err(Error::ConfigInvalid));
}

#[test]
fn file_hash_is_the_keyed_hash_of_the_plaintext() {
    let pk = author_key(0x22);
    let x_only = secp256k1::PublicKey::from_slice(&pk.0).unwrap().x_only_public_key().0.serialize();
    assert_eq!(x_only[..], pk.0[1..]);
    let expected = blake3::keyed_hash(&x_only, b"hello");
    let hash = file_hash(&pk, b"hello").unwrap();
    assert_eq!(&hash.0, expected.as_bytes());
    assert_eq!(hash.to_string(), expected.to_hex().to_string());
    let plan = write_file(&node_cfg(8), &pk, b"hello", false).unwrap();
    assert_eq!(plan.file_hash.0, hash.0);
}

#[test]
fn same_key_and_bytes_give_the_same_file_hash() {
    let pk = author_key(0x22);
    let bytes = patterned(5000);
    let mut first = Store::new();
    let mut second = Store::new();
    let other_node = SysCfg { private_key: [0x33; 32], ..node_cfg(8) };
    let a = store_file(&mut first, &node_cfg(8), &pk, &bytes).unwrap();
    let b = store_file(&mut second, &other_node, &pk, &bytes).unwrap();
    assert_eq!(a.0, b.0);
}

#[test]
fn another_key_gives_another_file_hash() {
    let a = file_hash(&author_key(0x22), b"hello").unwrap();
    let b = file_hash(&author_key(0x23), b"hello").unwrap();
    assert_ne!(a.0, b.0);
}

#[test]
fn bytes_that_are_no_key_are_refused() {
    let bad = Secp256k1PubKey([0u8; 33]);
    assert_eq!(file_hash(&bad, b"hello").err(), Some(Error::KeyInvalid));
    assert_eq!(write_file(&node_cfg(8), &bad, b"hello", false).err(), Some(Error::KeyInvalid));
    let no_scalar = SysCfg { private_key: [0u8; 32], ..node_cfg(8) };
    assert_eq!(
        write_file(&no_scalar, &author_key(0x22), b"hello", false).err(),
        Some(Error::KeyInvalid)
    );
}

#[test]
fn chunk_files_of_a_segment_agree() {
    let cfg = node_cfg(8);
    let pk = author_key(0x22);
    let bytes = patterned(SEGMENT_SIZE + 77);
    let plan = write_file(&cfg, &pk, &bytes, false).unwrap();
    let catalog = plan.writes[16].contents.clone();
    for j in 0..2 {
        let first = parse_header(&plan.writes[8 * j].contents).unwrap();
        for i in 0..8 {
            let file = &plan.writes[8 * j + i];
            let header = parse_header(&file.contents).unwrap();
            assert_eq!(file.volume, i);
            assert_eq!(file.dir, Dir::Segment);
            assert_eq!(header.hash[..], catalog[32 * j..32 * j + 32]);
            assert_eq!(file.name, segment_file_name(&BaoHash(header.hash), NODE_FORMAT));
            assert_eq!(header.chunk_index as usize, i);
            assert_eq!(header.format, NODE_FORMAT);
            assert_eq!(header.pubkey, pk.0);
            assert_eq!(header.encoded_len, first.encoded_len);
            assert_eq!(header.padding_len, first.padding_len);
            assert_eq!(file.contents.len(), HEADER_LEN + header.encoded_len as usize / 8);
        }
    }
}

#[test]
fn chunks_are_the_eighths_of_the_encoded_segment() {
    let pk = author_key(0x22);
    let plan = write_file(&node_cfg(8), &pk, b"hello", false).unwrap();
    let encoded = carbonado::encode(&pk.0, b"hello", NODE_FORMAT).unwrap();
    assert_eq!(encoded.0.len(), 8648);
    assert_eq!(encoded.2.padding_len, 4091);
    let mut joined = Vec::new();
    for i in 0..8 {
        let header = parse_header(&plan.writes[i].contents).unwrap();
        assert_eq!(header.encoded_len, 8648);
        assert_eq!(header.padding_len, 4091);
        assert_eq!(&header.hash, encoded.1.as_bytes());
        assert_eq!(plan.writes[i].contents.len(), 160 + 1081);
        joined.extend_from_slice(&plan.writes[i].contents[HEADER_LEN..]);
    }
    assert_eq!(joined, encoded.0);
}

#[test]
fn header_is_signed_with_the_shared_secret() {
    let cfg = node_cfg(8);
    let pk = author_key(0x22);
    let plan = write_file(&cfg, &pk, b"hello", false).unwrap();
    let header = parse_header(&plan.writes[0].contents).unwrap();
    let secp = secp256k1::Secp256k1::new();
    let shared = secp256k1::ecdh::SharedSecret::new(
        &secp256k1::PublicKey::from_slice(&pk.0).unwrap(),
        &secp256k1::SecretKey::from_slice(&cfg.private_key).unwrap(),
    );
    let signer = secp256k1::SecretKey::from_slice(&shared.secret_bytes()).unwrap();
    let verifier = secp256k1::PublicKey::from_secret_key(&secp, &signer);
    let signature = secp256k1::ecdsa::Signature::from_compact(&header.signature).unwrap();
    let message = secp256k1::Message::from_digest_slice(&header.hash).unwrap();
    assert!(secp.verify_ecdsa(&message, &signature, &verifier).is_ok());
}

#[test]
fn catalog_replicas_are_identical() {
    let cfg = node_cfg(8);
    let pk = author_key(0x22);
    let plan = write_file(&cfg, &pk, &patterned(SEGMENT_SIZE + 1), false).unwrap();
    assert_eq!(plan.writes.len(), 24);
    for i in 0..8 {
        let replica = &plan.writes[16 + i];
        assert_eq!(replica.volume, i);
        assert_eq!(replica.dir, Dir::Catalog);
        assert_eq!(replica.name, plan.file_hash.to_string());
        assert_eq!(replica.contents, plan.writes[16].contents);
        assert_eq!(replica.contents.len(), 64);
    }
}

#[test]
fn catalogs_come_after_all_chunk_files() {
    let plan = write_file(&node_cfg(8), &author_key(0x22), &patterned(SEGMENT_SIZE), false).unwrap();
    let first_catalog = plan.writes.iter().position(|w| w.dir == Dir::Catalog).unwrap();
    assert_eq!(first_catalog, 16);
    assert!(plan.writes[first_catalog..].iter().all(|w| w.dir == Dir::Catalog));
}

#[test]
fn files_lie_under_their_volume_and_directory() {
    let cfg = node_cfg(8);
    let plan = write_file(&cfg, &author_key(0x22), b"hello", false).unwrap();
    let chunk = &plan.writes[3];
    assert_eq!(
        file_path(&cfg.volumes[chunk.volume], chunk.dir, &chunk.name),
        format!("/tmp/carbonado-3/segments/{}", chunk.name)
    );
    assert!(chunk.name.ends_with(".c12"));
    assert_eq!(chunk.name.len(), 64 + 4);
    let replica = &plan.writes[8];
    assert_eq!(
        file_path(&cfg.volumes[replica.volume], replica.dir, &replica.name),
        format!("/tmp/carbonado-0/catalogs/{}", plan.file_hash.to_string())
    );
}

#[test]
fn five_missing_chunks_are_beyond_recovery() {
    let cfg = node_cfg(8);
    let pk = author_key(0x22);
    let mut store = Store::new();
    let hash = store_file(&mut store, &cfg, &pk, b"hello").unwrap();
    let catalog = load_catalog(&store, &hash).unwrap();
    for i in 3..8 {
        store.remove(&(i, false, segment_file_name(&catalog[0], NODE_FORMAT)));
    }
    assert_eq!(load_file(&store, &cfg, &hash), Err(Error::CodecError));
}

#[test]
fn segment_without_files_is_beyond_recovery() {
    let cfg = node_cfg(8);
    let catalog = vec![BaoHash([7u8; 32])];
    assert_eq!(read_file(&cfg, &catalog, &Vec::new()), Err(Error::CodecError));
    assert_eq!(read_file(&cfg, &Vec::new(), &Vec::new()), Ok(Vec::new()));
}

#[test]
fn changed_payload_does_not_have_the_hash() {
    let cfg = node_cfg(8);
    let pk = author_key(0x22);
    let mut store = Store::new();
    let hash = store_file(&mut store, &cfg, &pk, b"hello").unwrap();
    let catalog = load_catalog(&store, &hash).unwrap();
    let key = (2, false, segment_file_name(&catalog[0], NODE_FORMAT));
    let file = store.get_mut(&key).unwrap();
    file[HEADER_LEN + 100] ^= 0xff;
    assert_eq!(load_file(&store, &cfg, &hash), Err(Error::HashMismatch));
}

#[test]
fn chunk_file_with_trailing_bytes_counts_as_missing() {
    let cfg = node_cfg(8);
    let pk = author_key(0x22);
    let plan = write_file(&cfg, &pk, b"hello", false).unwrap();
    let catalog = vec![BaoHash(parse_header(&plan.writes[0].contents).unwrap().hash)];
    let mut chunks: Vec<Option<Vec<u8>>> =
        (0..8).map(|i| Some(plan.writes[i].contents.clone())).collect();
    assert_eq!(
        read_file(&cfg, &catalog, &vec![SegmentFiles { chunks: chunks.clone() }]),
        Ok(b"hello".to_vec())
    );
    for i in 0..5 {
        chunks[i].as_mut().unwrap().push(0);
    }
    assert_eq!(
        read_file(&cfg, &catalog, &vec![SegmentFiles { chunks }]),
        Err(Error::CodecError)
    );
}

#[test]
fn chunk_file_on_the_wrong_volume_counts_as_missing() {
    let cfg = node_cfg(8);
    let pk = author_key(0x22);
    let plan = write_file(&cfg, &pk, b"hello", false).unwrap();
    let catalog = vec![BaoHash(parse_header(&plan.writes[0].contents).unwrap().hash)];
    let chunks: Vec<Option<Vec<u8>>> =
        (0..8).map(|i| Some(plan.writes[7 - i].contents.clone())).collect();
    assert_eq!(
        read_file(&cfg, &catalog, &vec![SegmentFiles { chunks }]),
        Err(Error::CodecError)
    );
}

#[test]
fn chunk_files_of_another_segment_do_not_have_the_hash() {
    let cfg = node_cfg(8);
    let pk = author_key(0x22);
    let plan = write_file(&cfg, &pk, b"hello", false).unwrap();
    let mut chunks: Vec<Option<Vec<u8>>> =
        (0..8).map(|i| Some(plan.writes[i].contents.clone())).collect();
    let catalog = vec![BaoHash([9u8; 32])];
    assert_eq!(
        read_file(&cfg, &catalog, &vec![SegmentFiles { chunks: chunks.clone() }]),
        Err(Error::HashMismatch)
    );
    let other = write_file(&cfg, &pk, b"other", false).unwrap();
    let catalog = vec![BaoHash(parse_header(&plan.writes[0].contents).unwrap().hash)];
    for i in 0..4 {
        chunks[i] = Some(other.writes[i].contents.clone());
    }
    assert_eq!(
        read_file(&cfg, &catalog, &vec![SegmentFiles { chunks: chunks.clone() }]),
        Err(Error::CodecError)
    );
    chunks[4] = Some(other.writes[4].contents.clone());
    assert_eq!(
        read_file(&cfg, &catalog, &vec![SegmentFiles { chunks }]),
        Err(Error::HashMismatch)
    );
}

#[test]
fn catalog_is_read_from_the_first_volume_that_has_it() {
    let cfg = node_cfg(8);
    let pk = author_key(0x22);
    let mut store = Store::new();
    let hash = store_file(&mut store, &cfg, &pk, b"hello").unwrap();
    for i in 0..5 {
        store.remove(&(i, true, hash.to_string()));
    }
    assert_eq!(load_file(&store, &cfg, &hash), Ok(b"hello".to_vec()));
    for i in 5..8 {
        store.remove(&(i, true, hash.to_string()));
    }
    assert_eq!(load_file(&store, &cfg, &hash), Err(Error::NotFound));
}

#[test]
fn failures_of_the_file_system_are_judged() {
    assert_eq!(create_outcome(Ok(())), Ok(()));
    assert_eq!(create_outcome(Err(IoFailure::AlreadyExists)), Err(Error::AlreadyExists));
    assert_eq!(create_outcome(Err(IoFailure::NotFound)), Err(Error::IoError));
    assert_eq!(create_outcome(Err(IoFailure::Other)), Err(Error::IoError));
    assert_eq!(read_outcome(Ok(vec![1, 2])), Ok(Some(vec![1, 2])));
    assert_eq!(read_outcome(Err(IoFailure::NotFound)), Ok(None));
    assert_eq!(read_outcome(Err(IoFailure::AlreadyExists)), Err(Error::IoError));
    assert_eq!(read_outcome(Err(IoFailure::Other)), Err(Error::IoError));
}

#[test]
fn keys_with_the_same_x_coordinate_share_file_hashes() {
    let even = author_key(0x22);
    let mut odd = even;
    odd.0[0] ^= 1;
    assert!(secp256k1::PublicKey::from_slice(&odd.0).is_ok());
    assert_ne!(even.0, odd.0);
    assert_eq!(file_hash(&even, b"hello").unwrap().0, file_hash(&odd, b"hello").unwrap().0);
}

#[test]
fn equal_segments_claim_the_same_chunk_files() {
    let cfg = node_cfg(8);
    let pk = author_key(0x22);
    let bytes = vec![0u8; 2 * SEGMENT_SIZE];
    let plan = write_file(&cfg, &pk, &bytes, false).unwrap();
    assert_eq!(plan.writes.len(), 32);
    assert_eq!(plan.writes[0].name, plan.writes[8].name);
    assert_ne!(plan.writes[0].name, plan.writes[16].name);
    let mut store = Store::new();
    assert_eq!(apply(&mut store, &plan), Err(Error::AlreadyExists));
    assert_eq!(store.len(), 8);
}

#[test]
fn one_missing_chunk_leaves_too_little_for_the_codec() {
    let cfg = node_cfg(8);
    let pk = author_key(0x22);
    let mut store = Store::new();
    let hash = store_file(&mut store, &cfg, &pk, b"hello").unwrap();
    let catalog = load_catalog(&store, &hash).unwrap();
    store.remove(&(3, false, segment_file_name(&catalog[0], NODE_FORMAT)));
    assert_eq!(load_file(&store, &cfg, &hash), Err(Error::CodecError));
}
