use librechat_core::database::encryption::EncryptionManager;
use librechat_core::database::rows::CacheRow;
use librechat_core::models::{CacheType, Timestamp};
use librechat_core::services::cache_service::map_row_to_cache_entry;
use librechat_core::services::{CacheError, CacheService};

fn ts(seconds: i64) -> Timestamp {
    Timestamp::from_seconds(seconds).unwrap()
}

fn cache() -> CacheService {
    CacheService::new(EncryptionManager::new("chat-desktop", "cache-key"), [4u8; 32])
}

fn row() -> CacheRow {
    CacheRow {
        cache_key: "k".to_string(),
        encrypted_data: vec![1, 2, 3],
        created_at: 10,
        accessed_at: 20,
        expires_at: Some(30),
        cache_type: "message".to_string(),
        size_bytes: 3,
        encryption_key_id: "master-key".to_string(),
    }
}

#[test]
fn a_payload_is_read_back_as_put() {
    let mut c = cache();
    assert_eq!(c.put("preview", CacheType::Conversation, b"rendered", None, ts(100)), Ok(()));
    assert_eq!(c.get("preview", ts(101)), Ok(Some(b"rendered".to_vec())));
    assert_eq!(c.put("empty", CacheType::File, b"", None, ts(100)), Ok(()));
    assert_eq!(c.get("empty", ts(101)), Ok(Some(vec![])));
}

#[test]
fn a_miss_is_none_and_no_error() {
    let mut c = cache();
    assert_eq!(c.get("absent", ts(0)), Ok(None));
    c.put("k", CacheType::File, b"x", None, ts(0)).unwrap();
    assert_eq!(c.get("K", ts(0)), Ok(None));
    assert_eq!(c.get("", ts(0)), Ok(None));
}

#[test]
fn the_payload_is_stored_sealed_with_its_plain_size() {
    let mut c = cache();
    c.put("k", CacheType::Message, b"twelve bytes", Some(ts(500)), ts(100)).unwrap();
    let rows = c.rows();
    assert_eq!(rows.len(), 1);
    assert_eq!(rows[0].cache_key, "k");
    assert_eq!(rows[0].encrypted_data.len(), 12 + 12 + 16);
    assert_ne!(&rows[0].encrypted_data[12..24], b"twelve bytes");
    assert_eq!(rows[0].created_at, 100);
    assert_eq!(rows[0].accessed_at, 100);
    assert_eq!(rows[0].expires_at, Some(500));
    assert_eq!(rows[0].cache_type, "message");
    assert_eq!(rows[0].size_bytes, 12);
    assert_eq!(rows[0].encryption_key_id, "master-key");
}

#[test]
fn putting_again_overwrites_all_but_the_creation_time() {
    let mut c = cache();
    c.put("k", CacheType::Message, b"first", Some(ts(500)), ts(100)).unwrap();
    c.put("other", CacheType::File, b"other", None, ts(150)).unwrap();
    c.put("k", CacheType::Preference, b"second one", None, ts(200)).unwrap();
    let rows = c.rows();
    assert_eq!(rows.len(), 2);
    assert_eq!(rows[0].cache_key, "k");
    assert_eq!(rows[0].created_at, 100);
    assert_eq!(rows[0].accessed_at, 200);
    assert_eq!(rows[0].expires_at, None);
    assert_eq!(rows[0].cache_type, "preference");
    assert_eq!(rows[0].size_bytes, 10);
    assert_eq!(c.get("k", ts(201)), Ok(Some(b"second one".to_vec())));
    assert_eq!(c.get("other", ts(201)), Ok(Some(b"other".to_vec())));
}

#[test]
fn reading_touches_the_access_time_only() {
    let mut c = cache();
    c.put("k", CacheType::Message, b"x", Some(ts(500)), ts(100)).unwrap();
    let blob = c.rows()[0].encrypted_data.clone();
    c.get("k", ts(300)).unwrap();
    let rows = c.rows();
    assert_eq!(rows[0].accessed_at, 300);
    assert_eq!(rows[0].created_at, 100);
    assert_eq!(rows[0].expires_at, Some(500));
    assert_eq!(rows[0].encrypted_data, blob);
    c.get("absent", ts(400)).unwrap();
    assert_eq!(c.rows()[0].accessed_at, 300);
}

#[test]
fn an_entry_that_expired_a_second_ago_is_evicted() {
    let mut c = cache();
    let now = 1_700_000_000;
    c.put("k", CacheType::Conversation, b"stale", Some(ts(now - 1)), ts(now - 60)).unwrap();
    assert_eq!(c.evict_expired(ts(now)), Ok(1));
    assert_eq!(c.get("k", ts(now)), Ok(None));
    assert_eq!(c.evict_expired(ts(now)), Ok(0));
}

#[test]
fn a_dead_entry_is_a_miss_even_before_it_is_evicted() {
    let mut c = cache();
    c.put("k", CacheType::File, b"payload", Some(ts(100)), ts(10)).unwrap();
    c.put("forever", CacheType::File, b"kept", None, ts(10)).unwrap();
    assert_eq!(c.get("k", ts(99)), Ok(Some(b"payload".to_vec())));
    assert_eq!(c.rows()[0].accessed_at, 99);
    assert_eq!(c.get("k", ts(100)), Ok(None));
    assert_eq!(c.get("k", ts(101)), Ok(None));
    assert_eq!(c.get("k", ts(1_000_000)), Ok(None));
    assert_eq!(c.rows().len(), 2);
    assert_eq!(c.rows()[0].accessed_at, 99);
    assert_eq!(c.get("forever", ts(1_000_000)), Ok(Some(b"kept".to_vec())));
    c.put_sealed("forged", CacheType::File, vec![0u8; 40], 12, Some(ts(50)), ts(0));
    assert_eq!(c.get("forged", ts(50)), Ok(None));
    assert_eq!(
        c.get("forged", ts(49)),
        Err(CacheError::Encryption("decryption failure".to_string()))
    );
    let now = 1_700_000_000;
    c.put("stale", CacheType::Conversation, b"x", Some(ts(now - 1)), ts(now - 60)).unwrap();
    assert_eq!(c.get("stale", ts(now)), Ok(None));
    assert_eq!(c.evict_expired(ts(now)), Ok(3));
    assert_eq!(c.get("stale", ts(now)), Ok(None));
}

#[test]
fn eviction_removes_exactly_the_dead_entries() {
    let mut c = cache();
    c.put("past", CacheType::File, b"a", Some(ts(99)), ts(0)).unwrap();
    c.put("now", CacheType::File, b"b", Some(ts(100)), ts(0)).unwrap();
    c.put("future", CacheType::File, b"c", Some(ts(101)), ts(0)).unwrap();
    c.put("forever", CacheType::File, b"d", None, ts(0)).unwrap();
    assert_eq!(c.get("past", ts(98)), Ok(Some(b"a".to_vec())));
    assert_eq!(c.evict_expired(ts(100)), Ok(2));
    let keys: Vec<String> = c.rows().iter().map(|r| r.cache_key.clone()).collect();
    assert_eq!(keys, ["future", "forever"]);
    assert_eq!(c.get("future", ts(100)), Ok(Some(b"c".to_vec())));
    assert_eq!(c.evict_expired(ts(10_000)), Ok(1));
    assert_eq!(c.evict_expired(ts(i64::from(u32::MAX))), Ok(0));
    assert_eq!(c.rows().len(), 1);
}

#[test]
fn a_record_that_does_not_decrypt_is_an_error_and_no_miss() {
    let mut c = cache();
    c.put_sealed("short", CacheType::File, vec![1, 2, 3], 3, None, ts(0));
    c.put_sealed("forged", CacheType::File, vec![0u8; 40], 12, None, ts(0));
    assert_eq!(
        c.get("short", ts(5)),
        Err(CacheError::Encryption("ciphertext too short to contain nonce".to_string()))
    );
    assert_eq!(c.get("forged", ts(5)), Err(CacheError::Encryption("decryption failure".to_string())));
    assert_eq!(c.rows()[0].accessed_at, 0);
    assert_eq!(c.rows()[1].accessed_at, 0);
    assert_eq!(c.rows().len(), 2);
}

#[test]
fn a_record_sealed_under_another_key_is_an_error() {
    let mut theirs = CacheService::new(EncryptionManager::new("s", "a"), [5u8; 32]);
    theirs.put("k", CacheType::File, b"x", None, ts(0)).unwrap();
    let blob = theirs.rows()[0].encrypted_data.clone();
    let mut ours = cache();
    ours.put_sealed("k", CacheType::File, blob, 1, None, ts(0));
    assert_eq!(ours.get("k", ts(1)), Err(CacheError::Encryption("decryption failure".to_string())));
}

#[test]
fn entries_are_listed_with_metadata_and_sealed_payload() {
    let mut c = cache();
    c.put("a", CacheType::Conversation, b"first", Some(ts(900)), ts(100)).unwrap();
    c.put("b", CacheType::Preference, b"second!", None, ts(200)).unwrap();
    c.get("a", ts(300)).unwrap();
    let listed = c.list_entries().unwrap();
    assert_eq!(listed.len(), 2);
    assert_eq!(listed[0].key, "a");
    assert_eq!(listed[0].created_at, ts(100));
    assert_eq!(listed[0].accessed_at, ts(300));
    assert_eq!(listed[0].expires_at, Some(ts(900)));
    assert_eq!(listed[0].cache_type, CacheType::Conversation);
    assert_eq!(listed[0].size_bytes, 5);
    assert_eq!(listed[0].encryption_key_id, "master-key");
    assert_eq!(listed[0].encrypted_data, c.rows()[0].encrypted_data);
    assert_eq!(listed[1].key, "b");
    assert_eq!(listed[1].size_bytes, 7);
    assert_eq!(listed[1].expires_at, None);
    assert_eq!(listed[1].cache_type, CacheType::Preference);
    assert!(listed[0].is_expired(ts(900)));
    assert!(!listed[1].is_expired(ts(900)));
}

#[test]
fn a_cache_row_is_refused_at_its_first_bad_column() {
    let read = map_row_to_cache_entry(&row()).unwrap();
    assert_eq!(read.key, "k");
    assert_eq!(read.cache_type, CacheType::Message);
    assert_eq!(read.expires_at, Some(ts(30)));
    let invalid = Err(CacheError::Encryption("invalid timestamp".to_string()));
    let mut bad = row();
    bad.cache_type = "blob".to_string();
    bad.expires_at = Some(i64::MAX);
    assert_eq!(map_row_to_cache_entry(&bad), invalid);
    bad.expires_at = None;
    bad.created_at = i64::MIN;
    assert_eq!(map_row_to_cache_entry(&bad), invalid);
    bad.created_at = 0;
    bad.accessed_at = i64::MAX;
    assert_eq!(map_row_to_cache_entry(&bad), invalid);
    bad.accessed_at = 0;
    assert_eq!(
        map_row_to_cache_entry(&bad),
        Err(CacheError::Encryption("invalid CacheType: blob".to_string()))
    );
}

#[test]
fn cache_errors_in_words() {
    assert_eq!(CacheError::Database("busy".to_string()).message(), "database error: busy");
    assert_eq!(
        CacheError::Encryption("decryption failure".to_string()).message(),
        "encryption error: decryption failure"
    );
}

#[test]
fn restored_rows_replace_the_row_of_the_same_key() {
    let mut source = cache();
    source.put("k", CacheType::File, b"payload", None, ts(10)).unwrap();
    let sealed = source.rows()[0].clone();
    let mut c = cache();
    c.restore_row(row());
    c.restore_row(sealed);
    assert_eq!(c.rows().len(), 1);
    assert_eq!(c.rows()[0].created_at, 10);
    assert_eq!(c.get("k", ts(11)), Ok(Some(b"payload".to_vec())));
    let mut odd = row();
    odd.cache_key = "odd".to_string();
    odd.cache_type = "blob".to_string();
    c.restore_row(odd);
    assert_eq!(
        c.list_entries(),
        Err(CacheError::Encryption("invalid CacheType: blob".to_string()))
    );
}
