//! What authentication exchanges with the chat service.

use vstd::prelude::*;

verus! {

/// What is sent to log in with a password.
#[derive(Debug)]
pub struct PasswordLoginRequest {
    pub email: String,
    pub password: String,
    pub remember: bool,
}

/// What is sent to log in through an OAuth provider.
#[derive(Debug)]
pub struct OAuthLoginRequest {
    pub provider: String,
    pub code: String,
    pub state: Option<String>,
}

/// What is sent to trade a refresh token for a new access token.
#[derive(Debug)]
pub struct RefreshTokenRequest {
    pub refresh_token: String,
}

/// The plain acknowledgement of the service.
#[derive(Debug)]
pub struct SuccessResponse {
    pub success: bool,
    pub message: String,
}

} // verus!
