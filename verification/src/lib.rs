//! Offline-capable local data layer of a chat client: the encryption key
//! lifecycle, the relational store, the encrypted cache with expiry, and the
//! engine that merges remote state and replays the outbox.

pub mod database;
pub mod models;
pub mod services;
pub mod text;
