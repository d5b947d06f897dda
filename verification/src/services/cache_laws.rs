//! What holds of the encrypted cache, whatever it holds.

use vstd::prelude::*;

use crate::database::encryption::{opened_blob, EncryptionError};
use crate::database::rows::{
    has_key, index_of_key, keys_unique, lemma_filter_keeps_unique, lemma_index_of_key,
    CacheRowView, Keyed,
};
use crate::database::table::lemma_filter_keeps_rows;
use crate::models::CacheType;
use crate::services::cache_service::{
    alive_at, cache_row, cached_payload, expired_at, upsert_cache_row, CacheErrorView,
};

verus! {

/// Writing a cache row keeps the keys unique and leaves a row with its key:
/// the written row, but for the creation time and the key identifier of the
/// row that it overwrote, where it overwrote one.
pub proof fn lemma_upsert_cache_row(rows: Seq<CacheRowView>, row: CacheRowView)
    requires
        keys_unique(rows),
    ensures
        keys_unique(upsert_cache_row(rows, row)),
        has_key(upsert_cache_row(rows, row), row.cache_key),
        upsert_cache_row(rows, row)[index_of_key(upsert_cache_row(rows, row), row.cache_key)]
            == if has_key(rows, row.cache_key) {
            CacheRowView {
                created_at: rows[index_of_key(rows, row.cache_key)].created_at,
                encryption_key_id: rows[index_of_key(rows, row.cache_key)].encryption_key_id,
                ..row
            }
        } else {
            row
        },
{
    let once = upsert_cache_row(rows, row);
    let at = if has_key(rows, row.cache_key) {
        index_of_key(rows, row.cache_key)
    } else {
        rows.len() as int
    };
    assert forall|i: int, j: int|
        0 <= i < once.len() && 0 <= j < once.len() && #[trigger] once[i].key()
            == #[trigger] once[j].key() implies i == j by {
        if i < rows.len() {
            assert(once[i].key() == rows[i].key());
        }
        if j < rows.len() {
            assert(once[j].key() == rows[j].key());
        }
    }
    assert(once[at].key() == row.cache_key);
    lemma_index_of_key(once, row.cache_key, at);
}

/// Round trip through the cache: a payload that was put under a key is what
/// reading that key gives at any time at which the record is not dead, as
/// long as its blob opens to it under the key of the cache.
pub proof fn lemma_put_then_get(
    rows: Seq<CacheRowView>,
    key: Seq<u8>,
    cache_key: Seq<char>,
    cache_type: CacheType,
    blob: Seq<u8>,
    size_bytes: i64,
    expires_at: Option<int>,
    now: int,
    plaintext: Seq<u8>,
    read_at: int,
)
    requires
        keys_unique(rows),
        opened_blob(key, blob) == Ok::<Seq<u8>, EncryptionError>(plaintext),
        alive_at(read_at)(cache_row(cache_key, cache_type, blob, size_bytes, expires_at, now)),
    ensures
        cached_payload(
            upsert_cache_row(
                rows,
                cache_row(cache_key, cache_type, blob, size_bytes, expires_at, now),
            ),
            key,
            cache_key,
            read_at,
        ) == Ok::<Option<Seq<u8>>, CacheErrorView>(Some(plaintext)),
{
    lemma_upsert_cache_row(
        rows,
        cache_row(cache_key, cache_type, blob, size_bytes, expires_at, now),
    );
}

/// Cache expiry: reading a record that is dead at `now` is a miss at
/// `now`, whether or not the record was evicted, and whether or not its
/// blob would open.
pub proof fn lemma_dead_entry_is_a_miss(rows: Seq<CacheRowView>, key: Seq<u8>, now: int, at: int)
    requires
        keys_unique(rows),
        0 <= at < rows.len(),
        rows[at].expires_at matches Some(expiry) && expiry <= now,
    ensures
        cached_payload(rows, key, rows[at].cache_key, now) == Ok::<
            Option<Seq<u8>>,
            CacheErrorView,
        >(None),
{
    lemma_index_of_key(rows, rows[at].cache_key, at);
}

/// Cache expiry: once the dead records were removed at `now`, a record that
/// was dead then is gone, and reading its key is a miss from then on.
pub proof fn lemma_expired_entry_is_evicted(
    rows: Seq<CacheRowView>,
    key: Seq<u8>,
    now: int,
    at: int,
    read_at: int,
)
    requires
        keys_unique(rows),
        0 <= at < rows.len(),
        rows[at].expires_at matches Some(expiry) && expiry <= now,
    ensures
        rows.filter(expired_at(now)).len() >= 1,
        !has_key(rows.filter(alive_at(now)), rows[at].cache_key),
        cached_payload(rows.filter(alive_at(now)), key, rows[at].cache_key, read_at) == Ok::<
            Option<Seq<u8>>,
            CacheErrorView,
        >(None),
{
    let alive = rows.filter(alive_at(now));
    lemma_filter_keeps_rows(rows, alive_at(now));
    assert forall|k: int| 0 <= k < alive.len() implies (#[trigger] alive[k]).key()
        != rows[at].cache_key by {
        assert(rows.contains(alive[k]));
        let held = choose|held: int| 0 <= held < rows.len() && rows[held] == alive[k];
        assert(alive_at(now)(alive[k]));
        if alive[k].key() == rows[at].cache_key {
            assert(rows[held].key() == rows[at].key());
        }
    }
    assert(expired_at(now)(rows[at]));
    rows.lemma_filter_contains(expired_at(now), at);
}

/// Cache expiry: a record that is not dead at `now` stays as it is when the
/// dead records are removed.
pub proof fn lemma_alive_entry_survives(rows: Seq<CacheRowView>, now: int, at: int)
    requires
        keys_unique(rows),
        0 <= at < rows.len(),
        !(rows[at].expires_at matches Some(expiry) && expiry <= now),
    ensures
        has_key(rows.filter(alive_at(now)), rows[at].cache_key),
        rows.filter(alive_at(now))[index_of_key(rows.filter(alive_at(now)), rows[at].cache_key)]
            == rows[at],
{
    let alive = rows.filter(alive_at(now));
    assert(alive_at(now)(rows[at]));
    rows.lemma_filter_contains(alive_at(now), at);
    let k = choose|k: int| 0 <= k < alive.len() && alive[k] == rows[at];
    assert(alive[k].key() == rows[at].cache_key);
    lemma_filter_keeps_unique(rows, alive_at(now));
    lemma_index_of_key(alive, rows[at].cache_key, k);
}

} // verus!
