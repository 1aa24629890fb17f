//! The OAuth token and its expiry rule.

use vstd::prelude::*;

verus! {

/// The five fields of an access token, as the authorization server issues
/// them, plus the issue time in seconds since the Unix epoch.
pub struct Token {
    pub access_token: String,
    pub token_type: String,
    pub expires_in: u32,
    pub refresh_token: String,
    pub scope: String,
    pub created_at: u64,
}

/// The mathematical content of a token.
pub ghost struct TokenView {
    pub access_token: Seq<char>,
    pub token_type: Seq<char>,
    pub expires_in: int,
    pub refresh_token: Seq<char>,
    pub scope: Seq<char>,
    pub created_at: int,
}

impl View for Token {
    type V = TokenView;

    open spec fn view(&self) -> TokenView {
        TokenView {
            access_token: self.access_token@,
            token_type: self.token_type@,
            expires_in: self.expires_in as int,
            refresh_token: self.refresh_token@,
            scope: self.scope@,
            created_at: self.created_at as int,
        }
    }
}

/// A token is expired exactly when its lifetime has elapsed.
pub open spec fn token_expired(t: TokenView, now_seconds: int) -> bool {
    now_seconds >= t.created_at + t.expires_in
}

impl Token {
    /// Whether this token is expired at the given time in seconds.
    pub fn is_expired(&self, now_seconds: u64) -> (r: bool)
        ensures
            r == token_expired(self@, now_seconds as int),
    {
        (now_seconds as u128) >= (self.created_at as u128) + (self.expires_in as u128)
    }

    /// Copies a token.
    pub fn duplicate(&self) -> (r: Token)
        ensures
            r@ == self@,
    {
        Token {
            access_token: self.access_token.clone(),
            token_type: self.token_type.clone(),
            expires_in: self.expires_in,
            refresh_token: self.refresh_token.clone(),
            scope: self.scope.clone(),
            created_at: self.created_at,
        }
    }
}

} // verus!
