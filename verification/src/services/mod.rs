//! The services built on the records: the relational store, the encrypted
//! cache and the sync engine, and what they exchange with the chat service.

pub mod api_client;
pub mod auth_service;
pub mod cache_laws;
pub mod cache_service;
pub mod conversations_service;
pub mod files_service;
pub mod messages_service;
pub mod preferences_service;
pub mod row_mapping;
pub mod storage_laws;
pub mod storage_service;
pub mod sync_laws;
pub mod sync_service;

pub use api_client::ApiError;
pub use cache_service::{CacheError, CacheResult, CacheService};
pub use preferences_service::{PreferencesError, PreferencesResult, PreferencesService};
pub use storage_service::{StorageError, StorageResult, StorageService};
pub use sync_service::{SyncError, SyncResult, SyncService};
