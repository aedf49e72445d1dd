//! What sessions are made of: claims, token kinds, and the forms of the
//! sign-in endpoints.

use vstd::prelude::*;

verus! {

/// The kinds of token: a short-lived one that opens the API, and a
/// long-lived one that gets a new short-lived one.
#[derive(Debug, Clone, Copy, PartialEq, Eq, Structural)]
pub enum TokenType {
    /// Short-lived token for API access
    Access,
    /// Long-lived token for refreshing access tokens
    Refresh,
}

/// What a token says of its bearer.
#[derive(Debug)]
pub struct Claims {
    /// The user's identifier
    pub sub: u128,
    /// The user's role
    pub role: String,
    /// When the token ends, in seconds since the epoch
    pub exp: usize,
    pub token_type: TokenType,
}

/// Claims as a value.
pub struct ClaimsView {
    pub sub: u128,
    pub role: Seq<char>,
    pub exp: usize,
    pub token_type: TokenType,
}

impl View for Claims {
    type V = ClaimsView;

    open spec fn view(&self) -> ClaimsView {
        ClaimsView {
            sub: self.sub,
            role: self.role@,
            exp: self.exp,
            token_type: self.token_type,
        }
    }
}

/// Credentials for signing in.
#[derive(Debug)]
pub struct LoginForm {
    /// The user's email address
    pub email: String,
    /// The user's password
    pub password: String,
}

/// A request for a new access token.
#[derive(Debug)]
pub struct RefreshRequest {
    /// The refresh token to show for it
    pub refresh_token: String,
}

/// A request to trade an identity provider's token for the system's own.
#[derive(Debug)]
pub struct ExchangeTokenRequest {
    /// The identity provider's token
    pub keycloak_token: String,
}

/// A user as sign-in answers show it.
#[derive(Debug)]
pub struct UserResponse {
    pub uuid: u128,
    pub email: String,
    pub name: String,
    pub role: String,
}

/// The answer to a sign-in or a refresh.
#[derive(Debug)]
pub struct TokenResponse {
    pub access_token: String,
    /// Absent after a refresh
    pub refresh_token: Option<String>,
    pub user: UserResponse,
}

/// A request for a new user account.
#[derive(Debug)]
pub struct CreateUserRequest {
    pub email: String,
    pub name: String,
    /// The initial password, not hashed yet
    pub password: String,
    pub role: String,
}

} // verus!
