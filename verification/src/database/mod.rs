//! The shape of what is persisted, and the key that protects the cache.

use std::path::PathBuf;

use vstd::prelude::*;

pub mod encryption;
pub mod rows;
pub mod table;

verus! {

/// A path of the file system, as `std::path::PathBuf` holds it.
#[verifier::external_type_specification]
#[verifier::external_body]
pub struct ExPathBuf(PathBuf);

/// What is needed to open the database.
#[derive(Debug)]
pub struct DatabaseConfig {
    pub path: PathBuf,
    pub create_if_missing: bool,
    pub max_connections: u32,
}

impl DatabaseConfig {
    /// The configuration for the database file at `path`: the file is
    /// created where it is missing, and at most five connections are held.
    pub fn new(path: PathBuf) -> (config: DatabaseConfig)
        ensures
            config == (DatabaseConfig { path, create_if_missing: true, max_connections: 5 }),
    {
        DatabaseConfig { path, create_if_missing: true, max_connections: 5 }
    }
}

} // verus!
