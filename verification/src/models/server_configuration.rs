//! Configured servers and their authentication state.

use vstd::prelude::*;

use crate::models::{AuthType, ConnectionStatus, Timestamp};
use crate::text::copy_opt_string;

verus! {

/// A configured server with its authentication state. At most one
/// configuration is meant to be active at a time.
#[derive(Debug)]
pub struct ServerConfiguration {
    pub id: String,
    pub name: String,
    pub base_url: String,
    pub auth_type: AuthType,
    pub auth_token: Option<String>,
    pub refresh_token: Option<String>,
    pub token_expires_at: Option<Timestamp>,
    pub is_active: bool,
    pub is_secure: bool,
    pub last_connected: Option<Timestamp>,
    pub connection_status: ConnectionStatus,
    pub api_version: String,
    pub created_at: Timestamp,
}

impl Clone for ServerConfiguration {
    fn clone(&self) -> (copy: ServerConfiguration)
        ensures
            copy == *self,
    {
        ServerConfiguration {
            id: self.id.clone(),
            name: self.name.clone(),
            base_url: self.base_url.clone(),
            auth_type: self.auth_type,
            auth_token: copy_opt_string(&self.auth_token),
            refresh_token: copy_opt_string(&self.refresh_token),
            token_expires_at: self.token_expires_at,
            is_active: self.is_active,
            is_secure: self.is_secure,
            last_connected: self.last_connected,
            connection_status: self.connection_status,
            api_version: self.api_version.clone(),
            created_at: self.created_at,
        }
    }
}

impl ServerConfiguration {
    /// Whether the access token is still good at `now`: an expiry is known
    /// and lies after `now`.
    pub open spec fn token_valid_at(self, now: Timestamp) -> bool {
        self.token_expires_at matches Some(expiry) && expiry@ > now@
    }

    /// Whether the access token is still good at `now`.
    pub fn token_is_valid(&self, now: Timestamp) -> (valid: bool)
        ensures
            valid == self.token_valid_at(now),
    {
        match self.token_expires_at {
            Some(expiry) => expiry.is_after(&now),
            None => false,
        }
    }
}

} // verus!
