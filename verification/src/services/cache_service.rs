//! The encrypted cache: opaque payloads under a key, with expiry.

use vstd::prelude::*;

use crate::database::encryption::{
    opened_blob, EncryptionError, EncryptionManager, MAX_PLAINTEXT_LENGTH,
};
use crate::database::rows::{
    has_key, index_of_key, keys_unique, lemma_filter_keeps_unique, lemma_index_of_key, put_row,
    with_key, CacheRow, CacheRowView,
};
use crate::database::table::{find_row, keep_rows, lemma_filter_partition, store_at};
use crate::models::timestamp::representable;
use crate::models::{CacheType, EncryptedCacheEntry, EncryptedCacheEntryView, Timestamp};
use crate::services::row_mapping::{encode_optional_timestamp, instant_to_column};
use crate::text::{prefixed, str_eq};

verus! {

/// Why the cache could not answer.
#[derive(Debug, PartialEq, Eq)]
pub enum CacheError {
    /// The database refused or could not be reached.
    Database(String),
    /// A payload could not be encrypted or decrypted, or a record does not
    /// hold what it should.
    Encryption(String),
}

/// What a [`CacheError`] holds, as mathematical values.
pub enum CacheErrorView {
    Database(Seq<char>),
    Encryption(Seq<char>),
}

impl View for CacheError {
    type V = CacheErrorView;

    open spec fn view(&self) -> CacheErrorView {
        match self {
            CacheError::Database(message) => CacheErrorView::Database(message@),
            CacheError::Encryption(message) => CacheErrorView::Encryption(message@),
        }
    }
}

impl CacheErrorView {
    /// The error in words.
    pub open spec fn message(self) -> Seq<char> {
        match self {
            CacheErrorView::Database(message) => "database error: "@ + message,
            CacheErrorView::Encryption(message) => "encryption error: "@ + message,
        }
    }
}

impl CacheError {
    /// The error in words.
    pub fn message(&self) -> (text: String)
        ensures
            text@ == self@.message(),
    {
        match self {
            CacheError::Database(message) => prefixed("database error: ", message.as_str()),
            CacheError::Encryption(message) => prefixed("encryption error: ", message.as_str()),
        }
    }
}

/// What an operation of the cache returns.
pub type CacheResult<T> = Result<T, CacheError>;

/// The identifier under which every record names its key.
pub open spec fn master_key_id() -> Seq<char> {
    "master-key"@
}

/// The row that `put` writes for a payload sealed as `blob`.
pub open spec fn cache_row(
    cache_key: Seq<char>,
    cache_type: CacheType,
    blob: Seq<u8>,
    size_bytes: i64,
    expires_at: Option<int>,
    now: int,
) -> CacheRowView {
    CacheRowView {
        cache_key,
        encrypted_data: blob,
        created_at: now as i64,
        accessed_at: now as i64,
        expires_at: instant_to_column(expires_at),
        cache_type: cache_type.tag(),
        size_bytes,
        encryption_key_id: master_key_id(),
    }
}

/// The table after a cache row was written: a row with the same key is
/// overwritten in place but for its creation time and its key identifier, a
/// new key is appended.
pub open spec fn upsert_cache_row(rows: Seq<CacheRowView>, row: CacheRowView) -> Seq<CacheRowView> {
    if has_key(rows, row.cache_key) {
        let i = index_of_key(rows, row.cache_key);
        rows.update(
            i,
            CacheRowView {
                created_at: rows[i].created_at,
                encryption_key_id: rows[i].encryption_key_id,
                ..row
            },
        )
    } else {
        rows.push(row)
    }
}

/// The table after the record `cache_key` was read at `now`.
pub open spec fn touch_cache_row(rows: Seq<CacheRowView>, cache_key: Seq<char>, now: int) -> Seq<
    CacheRowView,
> {
    if has_key(rows, cache_key) {
        let i = index_of_key(rows, cache_key);
        rows.update(i, CacheRowView { accessed_at: now as i64, ..rows[i] })
    } else {
        rows
    }
}

/// Accepts the rows that are dead at `now`: an expiry is set and is not
/// later than `now`.
pub open spec fn expired_at(now: int) -> spec_fn(CacheRowView) -> bool {
    |row: CacheRowView| row.expires_at matches Some(expiry) && expiry <= now
}

/// Accepts the rows that are not dead at `now`.
pub open spec fn alive_at(now: int) -> spec_fn(CacheRowView) -> bool {
    |row: CacheRowView| !(row.expires_at matches Some(expiry) && expiry <= now)
}

/// The record that a row is read as.
pub open spec fn row_to_cache_entry(row: CacheRowView) -> Result<
    EncryptedCacheEntryView,
    CacheErrorView,
> {
    if row.expires_at matches Some(expiry) && !representable(expiry as int) {
        Err(CacheErrorView::Encryption("invalid timestamp"@))
    } else if !representable(row.created_at as int) {
        Err(CacheErrorView::Encryption("invalid timestamp"@))
    } else if !representable(row.accessed_at as int) {
        Err(CacheErrorView::Encryption("invalid timestamp"@))
    } else if CacheType::parse(row.cache_type) is None {
        Err(CacheErrorView::Encryption("invalid CacheType: "@ + row.cache_type))
    } else {
        Ok(
            EncryptedCacheEntryView {
                key: row.cache_key,
                encrypted_data: row.encrypted_data,
                created_at: row.created_at as int,
                accessed_at: row.accessed_at as int,
                expires_at: match row.expires_at {
                    Some(expiry) => Some(expiry as int),
                    None => None,
                },
                cache_type: CacheType::parse(row.cache_type)->Some_0,
                size_bytes: row.size_bytes as u64,
                encryption_key_id: row.encryption_key_id,
            },
        )
    }
}

/// The records that rows are read as. The rows are read in order, and the
/// first row that cannot be read decides the error.
pub open spec fn read_cache_rows(rows: Seq<CacheRowView>) -> Result<
    Seq<EncryptedCacheEntryView>,
    CacheErrorView,
>
    decreases rows.len(),
{
    if rows.len() == 0 {
        Ok(Seq::empty())
    } else {
        match read_cache_rows(rows.drop_last()) {
            Err(error) => Err(error),
            Ok(entries) => match row_to_cache_entry(rows.last()) {
                Err(error) => Err(error),
                Ok(entry) => Ok(entries.push(entry)),
            },
        }
    }
}

/// A row that cannot be read fails the reading of every list of rows that
/// goes on beyond it.
pub proof fn lemma_read_cache_rows_fails(rows: Seq<CacheRowView>, upto: int)
    requires
        0 <= upto <= rows.len(),
        read_cache_rows(rows.take(upto)) is Err,
    ensures
        read_cache_rows(rows) == read_cache_rows(rows.take(upto)),
    decreases rows.len() - upto,
{
    if upto == rows.len() {
        assert(rows.take(upto) =~= rows);
    } else {
        assert(rows.drop_last().take(upto) =~= rows.take(upto));
        lemma_read_cache_rows_fails(rows.drop_last(), upto);
    }
}

/// Whether reading `cache_key` at `now` finds a record to decrypt: there is
/// one, and it is not dead at `now`.
pub open spec fn is_hit(rows: Seq<CacheRowView>, cache_key: Seq<char>, now: int) -> bool {
    has_key(rows, cache_key) && alive_at(now)(rows[index_of_key(rows, cache_key)])
}

/// What reading the payload of `cache_key` at `now` gives: `None` without
/// such a record or with one that is dead at `now`, the plaintext where the
/// blob of a live record opens under the key, and else the reason why it
/// does not.
pub open spec fn cached_payload(
    rows: Seq<CacheRowView>,
    key: Seq<u8>,
    cache_key: Seq<char>,
    now: int,
) -> Result<Option<Seq<u8>>, CacheErrorView> {
    if is_hit(rows, cache_key, now) {
        match opened_blob(key, rows[index_of_key(rows, cache_key)].encrypted_data) {
            Ok(plaintext) => Ok(Some(plaintext)),
            Err(error) => Err(CacheErrorView::Encryption(error.spec_message())),
        }
    } else {
        Ok(None)
    }
}

/// The cache, as mathematical values: its rows and the key they are sealed
/// under.
pub struct CacheView {
    pub entries: Seq<CacheRowView>,
    pub key: Seq<u8>,
}

/// A result of the cache, as mathematical values.
pub open spec fn viewed_cache<T: DeepView>(result: CacheResult<T>) -> Result<T::V, CacheErrorView> {
    match result {
        Ok(value) => Ok(value.deep_view()),
        Err(error) => Err(error@),
    }
}

/// Key-value store of encrypted payloads. Every record is sealed under the
/// one key that the cache was made with.
pub struct CacheService {
    entries: Vec<CacheRow>,
    encryption: EncryptionManager,
    key: [u8; 32],
}

impl View for CacheService {
    type V = CacheView;

    closed spec fn view(&self) -> CacheView {
        CacheView { entries: self.entries.deep_view(), key: self.key@ }
    }
}

impl CacheService {
    /// The cache holds every key once.
    #[verifier::type_invariant]
    pub open spec fn one_record_per_key(self) -> bool {
        keys_unique(self@.entries)
    }

    /// An empty cache that seals under `key`.
    pub fn new(encryption: EncryptionManager, key: [u8; 32]) -> (cache: CacheService)
        ensures
            cache@ == (CacheView { entries: Seq::empty(), key: key@ }),
    {
        let cache = CacheService { entries: Vec::new(), encryption, key };
        assert(cache@.entries =~= Seq::empty());
        cache
    }

    /// The rows of `encrypted_cache`, as they are to be persisted.
    pub fn rows(&self) -> (rows: &Vec<CacheRow>)
        ensures
            rows.deep_view() == self@.entries,
    {
        &self.entries
    }

    /// Puts a row of `encrypted_cache` as it was persisted: it replaces the
    /// row with the same key, or is appended.
    pub fn restore_row(&mut self, row: CacheRow)
        ensures
            final(self)@ == (CacheView {
                entries: put_row(old(self)@.entries, row@),
                ..old(self)@
            }),
            keys_unique(final(self)@.entries),
    {
        proof {
            use_type_invariant(&*self);
        }
        let mut table: Vec<CacheRow> = Vec::new();
        core::mem::swap(&mut table, &mut self.entries);
        let same_key = |held: &CacheRow| -> (hit: bool)
            ensures
                hit == (held@.cache_key == row@.cache_key),
            {
                held.cache_key == row.cache_key
            };
        let hit = find_row(&table, same_key, Ghost(with_key(row@.cache_key)));
        store_at(&mut table, hit, row);
        self.entries = table;
    }

    /// Writes a record whose payload is already sealed as `blob`: inserts
    /// it, or overwrites the record with the same key but for its creation
    /// time and its key identifier.
    pub fn put_sealed(
        &mut self,
        cache_key: &str,
        cache_type: CacheType,
        blob: Vec<u8>,
        size_bytes: i64,
        expires_at: Option<Timestamp>,
        now: Timestamp,
    )
        ensures
            final(self)@ == (CacheView {
                entries: upsert_cache_row(
                    old(self)@.entries,
                    cache_row(
                        cache_key@,
                        cache_type,
                        blob@,
                        size_bytes,
                        expires_at.deep_view(),
                        now@,
                    ),
                ),
                ..old(self)@
            }),
            keys_unique(final(self)@.entries),
    {
        proof {
            use_type_invariant(&*self);
        }
        let row = CacheRow {
            cache_key: cache_key.to_owned(),
            encrypted_data: blob,
            created_at: now.seconds(),
            accessed_at: now.seconds(),
            expires_at: encode_optional_timestamp(expires_at),
            cache_type: cache_type.as_str().to_owned(),
            size_bytes,
            encryption_key_id: "master-key".to_owned(),
        };
        let mut table: Vec<CacheRow> = Vec::new();
        core::mem::swap(&mut table, &mut self.entries);
        let ghost before = table.deep_view();
        let same_key = |held: &CacheRow| -> (hit: bool)
            ensures
                hit == (held@.cache_key == cache_key@),
            {
                str_eq(held.cache_key.as_str(), cache_key)
            };
        let found = find_row(&table, same_key, Ghost(with_key(cache_key@)));
        match found {
            Some(i) => {
                let merged = CacheRow {
                    created_at: table[i].created_at,
                    encryption_key_id: table[i].encryption_key_id.clone(),
                    ..row
                };
                proof {
                    lemma_index_of_key(before, cache_key@, i as int);
                }
                table.set(i, merged);
                assert(table.deep_view() =~= upsert_cache_row(before, row@));
            },
            None => {
                table.push(row);
                assert(table.deep_view() =~= upsert_cache_row(before, row@));
            },
        }
        self.entries = table;
    }

    /// Seals `plaintext` under the key and writes it as the record
    /// `cache_key`. The nonce is fresh, so the blob is not determined; what
    /// is written opens to `plaintext` under the key of the cache. Where the
    /// payload cannot be sealed nothing is written.
    pub fn put(
        &mut self,
        cache_key: &str,
        cache_type: CacheType,
        plaintext: &[u8],
        expires_at: Option<Timestamp>,
        now: Timestamp,
    ) -> (done: CacheResult<()>)
        ensures
            match done {
                Ok(_) => exists|blob: Seq<u8>|
                    {
                        &&& opened_blob(old(self)@.key, blob) == Ok::<Seq<u8>, EncryptionError>(
                            plaintext@,
                        )
                        &&& final(self)@ == (CacheView {
                            entries: upsert_cache_row(
                                old(self)@.entries,
                                #[trigger] cache_row(
                                    cache_key@,
                                    cache_type,
                                    blob,
                                    plaintext@.len() as i64,
                                    expires_at.deep_view(),
                                    now@,
                                ),
                            ),
                            ..old(self)@
                        })
                    },
                Err(error) => final(self)@ == old(self)@ && error@ is Encryption,
            },
            plaintext@.len() > MAX_PLAINTEXT_LENGTH ==> done is Err,
            final(self)@.key == old(self)@.key,
            keys_unique(final(self)@.entries),
    {
        proof {
            use_type_invariant(&*self);
        }
        match self.encryption.encrypt(&self.key, plaintext) {
            Err(error) => Err(CacheError::Encryption(error.message())),
            Ok(blob) => {
                let ghost sealed = blob@;
                self.put_sealed(
                    cache_key,
                    cache_type,
                    blob,
                    plaintext.len() as i64,
                    expires_at,
                    now,
                );
                Ok(())
            },
        }
    }

    /// Reads the payload of `cache_key` at `now`. A hit is decrypted and its
    /// access time becomes `now`. A miss is `None` and changes nothing: so is
    /// a key without a record, and so is a record that is dead at `now`,
    /// whether or not it was evicted yet. A live record that does not
    /// decrypt is an error, never a miss, and stays as it is.
    pub fn get(&mut self, cache_key: &str, now: Timestamp) -> (read: CacheResult<Option<Vec<u8>>>)
        ensures
            viewed_cache(read) == cached_payload(
                old(self)@.entries,
                old(self)@.key,
                cache_key@,
                now@,
            ),
            final(self)@ == if read matches Ok(Some(_)) {
                CacheView {
                    entries: touch_cache_row(old(self)@.entries, cache_key@, now@),
                    ..old(self)@
                }
            } else {
                old(self)@
            },
            keys_unique(final(self)@.entries),
    {
        proof {
            use_type_invariant(&*self);
        }
        let same_key = |held: &CacheRow| -> (hit: bool)
            ensures
                hit == (held@.cache_key == cache_key@),
            {
                str_eq(held.cache_key.as_str(), cache_key)
            };
        let found = find_row(&self.entries, same_key, Ghost(with_key(cache_key@)));
        match found {
            None => Ok(None),
            Some(i) => {
                proof {
                    lemma_index_of_key(self.entries.deep_view(), cache_key@, i as int);
                }
                let dead = match self.entries[i].expires_at {
                    Some(expiry) => expiry <= now.seconds(),
                    None => false,
                };
                if dead {
                    return Ok(None);
                }
                let plaintext = match self.encryption.decrypt(
                    &self.key,
                    self.entries[i].encrypted_data.as_slice(),
                ) {
                    Ok(plaintext) => plaintext,
                    Err(error) => {
                        return Err(CacheError::Encryption(error.message()));
                    },
                };
                let mut table: Vec<CacheRow> = Vec::new();
                core::mem::swap(&mut table, &mut self.entries);
                let ghost before = table.deep_view();
                let mut touched = table[i].clone();
                touched.accessed_at = now.seconds();
                table.set(i, touched);
                assert(table.deep_view() =~= touch_cache_row(before, cache_key@, now@));
                self.entries = table;
                assert(plaintext.deep_view() == plaintext@);
                Ok(Some(plaintext))
            },
        }
    }

    /// Removes every record that is dead at `now`, and says how many went.
    pub fn evict_expired(&mut self, now: Timestamp) -> (evicted: CacheResult<u64>)
        ensures
            evicted matches Ok(count) && count == old(self)@.entries.filter(
                expired_at(now@),
            ).len(),
            final(self)@ == (CacheView {
                entries: old(self)@.entries.filter(alive_at(now@)),
                ..old(self)@
            }),
            keys_unique(final(self)@.entries),
    {
        proof {
            use_type_invariant(&*self);
            lemma_filter_keeps_unique(self@.entries, alive_at(now@));
            lemma_filter_partition(self@.entries, alive_at(now@), expired_at(now@));
        }
        let bound = now.seconds();
        let lives = |held: &CacheRow| -> (kept: bool)
            ensures
                kept == !(held@.expires_at matches Some(expiry) && expiry <= bound),
            {
                match held.expires_at {
                    Some(expiry) => expiry > bound,
                    None => true,
                }
            };
        let kept = keep_rows(&self.entries, lives, Ghost(alive_at(now@)));
        let count = self.entries.len() - kept.len();
        self.entries = kept;
        Ok(count as u64)
    }

    /// Lists every record with its metadata and its payload as stored,
    /// never decrypted, in the order in which the keys were first written.
    pub fn list_entries(&self) -> (listed: CacheResult<Vec<EncryptedCacheEntry>>)
        ensures
            viewed_cache(listed) == read_cache_rows(self@.entries),
    {
        let ghost all = self.entries.deep_view();
        let mut entries: Vec<EncryptedCacheEntry> = Vec::new();
        let mut i: usize = 0;
        assert(all.take(0) =~= Seq::empty());
        assert(entries.deep_view() =~= Seq::empty());
        while i < self.entries.len()
            invariant
                i <= self.entries.len(),
                all == self@.entries,
                all == self.entries.deep_view(),
                read_cache_rows(all.take(i as int)) == Ok::<
                    Seq<EncryptedCacheEntryView>,
                    CacheErrorView,
                >(entries.deep_view()),
            decreases self.entries.len() - i,
        {
            let ghost read_so_far = entries.deep_view();
            proof {
                assert(all.take(i + 1).drop_last() =~= all.take(i as int));
                assert(all.take(i + 1).last() == all[i as int]);
            }
            let entry = match map_row_to_cache_entry(&self.entries[i]) {
                Ok(entry) => entry,
                Err(error) => {
                    proof {
                        assert(row_to_cache_entry(all.take(i + 1).last()) is Err);
                        assert(read_cache_rows(all.take(i + 1)) is Err);
                        lemma_read_cache_rows_fails(all, i + 1);
                    }
                    return Err(error);
                },
            };
            entries.push(entry);
            assert(entries.deep_view() =~= read_so_far.push(entry@));
            i += 1;
        }
        assert(all.take(self.entries.len() as int) =~= all);
        Ok(entries)
    }
}

/// The instant of a column value of the cache.
fn decode_timestamp(seconds: i64) -> (decoded: CacheResult<Timestamp>)
    ensures
        match decoded {
            Ok(instant) => representable(seconds as int) && instant@ == seconds,
            Err(error) => !representable(seconds as int) && error@ == CacheErrorView::Encryption(
                "invalid timestamp"@,
            ),
        },
{
    match Timestamp::from_seconds(seconds) {
        Some(instant) => Ok(instant),
        None => Err(CacheError::Encryption("invalid timestamp".to_owned())),
    }
}

/// Reads a row as a record of the cache.
pub fn map_row_to_cache_entry(row: &CacheRow) -> (read: CacheResult<EncryptedCacheEntry>)
    ensures
        viewed_cache(read) == row_to_cache_entry(row@),
{
    let expires_at = match row.expires_at {
        Some(expiry) => Some(decode_timestamp(expiry)?),
        None => None,
    };
    let created_at = decode_timestamp(row.created_at)?;
    let accessed_at = decode_timestamp(row.accessed_at)?;
    let cache_type = match CacheType::from_str(row.cache_type.as_str()) {
        Ok(kind) => kind,
        Err(message) => {
            return Err(CacheError::Encryption(message));
        },
    };
    Ok(
        EncryptedCacheEntry {
            key: row.cache_key.clone(),
            encrypted_data: row.encrypted_data.clone(),
            created_at,
            accessed_at,
            expires_at,
            cache_type,
            size_bytes: #[verifier::truncate]
            (row.size_bytes as u64),
            encryption_key_id: row.encryption_key_id.clone(),
        },
    )
}

} // verus!
