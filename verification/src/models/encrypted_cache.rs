//! Records of the encrypted cache.

use vstd::prelude::*;

use crate::models::{CacheType, Timestamp};

verus! {

/// One record of the encrypted cache. The payload is never held decrypted.
#[derive(Debug, PartialEq, Eq)]
pub struct EncryptedCacheEntry {
    pub key: String,
    pub encrypted_data: Vec<u8>,
    pub created_at: Timestamp,
    pub accessed_at: Timestamp,
    pub expires_at: Option<Timestamp>,
    pub cache_type: CacheType,
    pub size_bytes: u64,
    pub encryption_key_id: String,
}

/// What a [`EncryptedCacheEntry`] holds, as mathematical values.
pub struct EncryptedCacheEntryView {
    pub key: Seq<char>,
    pub encrypted_data: Seq<u8>,
    pub created_at: int,
    pub accessed_at: int,
    pub expires_at: Option<int>,
    pub cache_type: CacheType,
    pub size_bytes: u64,
    pub encryption_key_id: Seq<char>,
}

impl View for EncryptedCacheEntry {
    type V = EncryptedCacheEntryView;

    open spec fn view(&self) -> EncryptedCacheEntryView {
        EncryptedCacheEntryView {
            key: self.key@,
            encrypted_data: self.encrypted_data@,
            created_at: self.created_at@,
            accessed_at: self.accessed_at@,
            expires_at: self.expires_at.deep_view(),
            cache_type: self.cache_type,
            size_bytes: self.size_bytes,
            encryption_key_id: self.encryption_key_id@,
        }
    }
}

impl DeepView for EncryptedCacheEntry {
    type V = EncryptedCacheEntryView;

    open spec fn deep_view(&self) -> EncryptedCacheEntryView {
        self.view()
    }
}

impl Clone for EncryptedCacheEntry {
    fn clone(&self) -> (copy: EncryptedCacheEntry)
        ensures
            copy@ == self@,
    {
        EncryptedCacheEntry {
            key: self.key.clone(),
            encrypted_data: self.encrypted_data.clone(),
            created_at: self.created_at,
            accessed_at: self.accessed_at,
            expires_at: self.expires_at,
            cache_type: self.cache_type,
            size_bytes: self.size_bytes,
            encryption_key_id: self.encryption_key_id.clone(),
        }
    }
}

impl EncryptedCacheEntryView {
    /// Whether the entry is dead at `now`: it has an expiry, and that expiry
    /// is not later than `now`.
    pub open spec fn is_expired(self, now: int) -> bool {
        self.expires_at matches Some(expiry) && expiry <= now
    }
}

impl EncryptedCacheEntry {
    /// Whether the entry is dead at `now`.
    pub fn is_expired(&self, now: Timestamp) -> (expired: bool)
        ensures
            expired == self@.is_expired(now@),
    {
        match self.expires_at {
            Some(expiry) => expiry.is_at_or_before(&now),
            None => false,
        }
    }
}

} // verus!
