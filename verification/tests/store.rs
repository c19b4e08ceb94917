use clipnotex::error::CnxError;
use clipnotex::ids::ClipId;
use clipnotex::model::{BlobId, ClipItem, ClipKind, Compression, PayloadRef, PayloadStorage, SourceApp};
use clipnotex::store::aead::{decode_keys, encode_keys, load_keys, DataKeys, KeyLoad, KeySource, KeychainRead, Sealer};
use clipnotex::store::base64::{decode, encode};
use clipnotex::store::blobs::{blob_id_of, hex_two, BlobStore};
use clipnotex::store::history::{
    bump_record, clip_id_from_index, eviction_needed, migration_needed, move_to_blob, needs_offload,
    payloads_to_offload, plan_eviction, query_matches, toggle_pin_record, EvictionPolicy, RecentCollector,
    ScannedItem,
};

fn item(text: &str, created_at: i64) -> ClipItem {
    ClipItem {
        id: ClipId(created_at as u128),
        created_at,
        updated_at: created_at,
        source_app: SourceApp::default(),
        primary_kind: ClipKind::Text,
        payloads: vec![],
        digest: *blake3::hash(text.as_bytes()).as_bytes(),
        text_preview: Some(text.into()),
        pinned: false,
        tags: vec![],
        total_bytes: text.len() as u64,
    }
}

fn scanned(created_at: i64, len: usize, pinned: bool) -> ScannedItem {
    ScannedItem { created_at, id: [created_at as u8; 16], sealed_len: len, digest: [0; 32], pinned }
}

#[test]
fn round_trip() {
    let keys = DataKeys::generate();
    let s = Sealer::new(&keys.history);
    let pt = b"hello world";
    let aad = b"format=text";
    let ct = s.seal(pt, aad).unwrap();
    let back = s.open(&ct, aad).unwrap();
    assert_eq!(back, pt);
}

#[test]
fn aad_mismatch_fails() {
    let keys = DataKeys::generate();
    let s = Sealer::new(&keys.history);
    let ct = s.seal(b"data", b"a").unwrap();
    assert!(s.open(&ct, b"b").is_err());
}

#[test]
fn sealed_record_hides_the_message() {
    let s = Sealer::new(&[9u8; 32]);
    let ct = s.seal(b"secret text", b"").unwrap();
    assert_eq!(ct.len(), 24 + 11 + 16);
    assert!(!ct.windows(11).any(|w| w == b"secret text"));
    assert!(matches!(s.open(&ct[..10], b""), Err(CnxError::Crypto(m)) if m == "ciphertext too short"));
    let other = Sealer::new(&[8u8; 32]);
    assert!(matches!(other.open(&ct, b""), Err(CnxError::Crypto(m)) if m == "open: aead::Error"));
}

#[test]
fn base64_round_trip_and_alphabet() {
    assert_eq!(encode(b""), "");
    assert_eq!(encode(b"f"), "Zg");
    assert_eq!(encode(b"fo"), "Zm8");
    assert_eq!(encode(b"foo"), "Zm9v");
    assert_eq!(encode(&[0xfb, 0xff]), "-_8");
    let data: Vec<u8> = (0u8..=255).collect();
    assert_eq!(decode(&encode(&data)).unwrap(), data);
    assert_eq!(decode("Zm 9v!").unwrap(), b"foo");
}

#[test]
fn data_keys_round_trip_through_text() {
    let keys = DataKeys::generate();
    let text = encode_keys(&keys);
    let back = decode_keys(&text).unwrap();
    assert_eq!(back.history, keys.history);
    assert_eq!(back.donelog, keys.donelog);
    assert!(matches!(decode_keys("Zm9v"), Err(CnxError::Crypto(m)) if m == "invalid key length"));
}

#[test]
fn key_loading_decisions() {
    assert!(matches!(load_keys(&KeySource::Ephemeral, KeychainRead::NoEntry), KeyLoad::Ready(_)));
    let ring = KeySource::Keyring { service: "s".into(), account: "a".into() };
    assert!(matches!(load_keys(&ring, KeychainRead::NoEntry), KeyLoad::StoreNew(_)));
    match load_keys(&ring, KeychainRead::Failed("locked".into())) {
        KeyLoad::Failed(CnxError::Crypto(m)) => assert_eq!(m, "keyring read: locked"),
        _ => panic!("expected a failure"),
    }
    let keys = DataKeys { history: [1; 32], donelog: [2; 32] };
    match load_keys(&ring, KeychainRead::Found(encode_keys(&keys))) {
        KeyLoad::Ready(k) => {
            assert_eq!(k.history, [1; 32]);
            assert_eq!(k.donelog, [2; 32]);
        }
        _ => panic!("expected the stored keys"),
    }
}

#[test]
fn evict_by_count_plans_oldest_unpinned() {
    let s: Vec<ScannedItem> = (0..5).map(|i| scanned(i, 10, false)).collect();
    assert!(eviction_needed(EvictionPolicy::UntilCount(3), 5, 50));
    assert_eq!(plan_eviction(EvictionPolicy::UntilCount(3), 5, 50, &s), vec![0, 1]);
}

#[test]
fn evict_plan_skips_pinned_items() {
    let s = vec![scanned(0, 10, true), scanned(1, 10, false)];
    assert_eq!(plan_eviction(EvictionPolicy::UntilCount(1), 2, 20, &s), vec![1]);
}

#[test]
fn evict_by_bytes_stops_at_target() {
    let s = vec![scanned(0, 30, false), scanned(1, 30, true), scanned(2, 30, false), scanned(3, 30, false)];
    assert_eq!(plan_eviction(EvictionPolicy::UntilBytes(70), 4, 120, &s), vec![0, 2]);
    assert!(!eviction_needed(EvictionPolicy::UntilBytes(200), 4, 120));
    assert!(plan_eviction(EvictionPolicy::UntilBytes(200), 4, 120, &s).is_empty());
}

#[test]
fn listing_keeps_matches_up_to_limit_pinned_first() {
    let mut c = RecentCollector::new(3, Some("HELLO"));
    let mut pinned = item("Hello pinned", 1);
    pinned.pinned = true;
    for it in [item("hello world", 5), item("foo bar", 4), pinned, item("say hello", 0), item("hello again", -1)] {
        if !c.wants_more() {
            break;
        }
        c.offer(it);
    }
    let out = c.finish();
    let previews: Vec<&str> = out.iter().map(|i| i.text_preview.as_deref().unwrap()).collect();
    assert_eq!(previews, vec!["Hello pinned", "hello world", "say hello"]);
}

#[test]
fn query_match_ignores_case_and_needs_a_preview() {
    let mut i = item("Grüße aus Köln", 1);
    assert!(query_matches(&i, Some("KÖLN")));
    assert!(query_matches(&i, None));
    i.text_preview = None;
    assert!(!query_matches(&i, Some("x")));
    assert!(query_matches(&i, None));
}

#[test]
fn record_updates() {
    let mut i = item("x", 5);
    bump_record(&mut i, 99);
    assert_eq!((i.created_at, i.updated_at), (99, 99));
    assert!(toggle_pin_record(&mut i, 100));
    assert_eq!(i.updated_at, 100);
    assert!(!toggle_pin_record(&mut i, 101));
}

#[test]
fn schema_versions() {
    assert_eq!(migration_needed(1).unwrap(), false);
    assert_eq!(migration_needed(0).unwrap(), true);
    match migration_needed(7) {
        Err(CnxError::Storage(m)) => {
            assert_eq!(m, "database was created by a newer ClipNoteX (v7); refusing to downgrade")
        }
        other => panic!("unexpected {other:?}"),
    }
}

#[test]
fn large_inline_payloads_move_to_blobs() {
    assert!(!needs_offload(256 * 1024));
    assert!(needs_offload(256 * 1024 + 1));
    let small = PayloadRef { format_id: "a".into(), compression: Compression::Uncompressed, storage: PayloadStorage::Inline(vec![0; 4]), raw_size: 4 };
    let big = PayloadRef { format_id: "b".into(), compression: Compression::Uncompressed, storage: PayloadStorage::Inline(vec![0; 256 * 1024 + 1]), raw_size: 0 };
    let blob = PayloadRef { format_id: "c".into(), compression: Compression::Zstd, storage: PayloadStorage::Blob(BlobId([1; 32])), raw_size: 0 };
    let mut ps = vec![small, big, blob];
    assert_eq!(payloads_to_offload(&ps), vec![1]);
    move_to_blob(&mut ps[1], BlobId([7; 32]));
    assert!(matches!(ps[1].storage, PayloadStorage::Blob(BlobId(b)) if b == [7; 32]));
    assert!(payloads_to_offload(&ps).is_empty());
}

#[test]
fn index_ids_need_sixteen_bytes() {
    let id = ClipId(0xabcdef);
    assert_eq!(clip_id_from_index(&id.as_bytes()), Some(id));
    assert_eq!(clip_id_from_index(&[1, 2, 3]), None);
}

#[test]
fn blob_paths_fan_out_by_hex_prefix() {
    let mut b = [0u8; 32];
    b[0] = 0xab;
    b[31] = 0x01;
    let hex = hex_two(&b);
    assert_eq!(hex.len(), 64);
    assert_eq!(hex[..4].iter().collect::<String>(), "ab00");
    let store = BlobStore::new("/data/blobs".into());
    let p = store.path(&BlobId(b));
    assert_eq!(p, format!("/data/blobs/ab/00{}01", "0".repeat(58)));
    assert_eq!(BlobStore::new("/r/".into()).path(&BlobId(b))[..6].to_string(), "/r/ab/");
    assert_eq!(store.root(), "/data/blobs");
}

#[test]
fn byte_eviction_stops_as_soon_as_the_target_is_met() {
    let s = vec![scanned(0, 50, false), scanned(1, 50, false), scanned(2, 50, false)];
    assert_eq!(plan_eviction(EvictionPolicy::UntilBytes(100), 3, 150, &s), vec![0]);
    assert_eq!(plan_eviction(EvictionPolicy::UntilBytes(0), 3, 150, &s), vec![0, 1, 2]);
    let pinned_only = vec![scanned(0, 50, true)];
    assert!(plan_eviction(EvictionPolicy::UntilBytes(0), 1, 50, &pinned_only).is_empty());
}

#[test]
fn decode_ignores_bytes_outside_the_alphabet() {
    assert_eq!(decode("aGk"), Ok(vec![0x68, 0x69]));
    assert_eq!(decode("aG k="), Ok(vec![0x68, 0x69]));
    assert_eq!(decode("a+G/k\n"), decode("aGk"));
}

#[test]
fn blob_ids_are_content_addresses() {
    let data = b"some payload bytes";
    let id = blob_id_of(data);
    assert_eq!(id, BlobId(*blake3::hash(data).as_bytes()));
    assert_ne!(id.0.to_vec(), data.to_vec());
    let other = blob_id_of(b"other bytes");
    assert_ne!(id, other);
    let store = BlobStore::new("root".into());
    assert_ne!(store.path(&id), store.path(&other));
    assert_eq!(store.path(&BlobId([0xab; 32])), format!("root/ab/{}", "ab".repeat(31)));
}
