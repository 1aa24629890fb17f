//! The token lifecycle.
//!
//! The session owns at most one token. It becomes authenticated on a
//! successful authorization-code exchange, on a successful refresh, or on
//! recovery of a stored token at startup; expiry is a read-time
//! classification; a refresh replaces all token fields at once; a terminal
//! refresh failure or a revocation clears the session. The surrounding
//! application serializes these transitions behind one lock, so callers
//! observe either the pre-refresh or the post-refresh token, never a partial
//! one; the exchange itself — an upstream HTTP call — is the application's
//! part.

use vstd::prelude::*;
use vstd::string::*;
use crate::strutil::{append_json_string, append_u64, spec_json_string, spec_dec};
use crate::token::{Token, TokenView, token_expired};

verus! {

/// The process-wide token slot: empty while unauthenticated.
pub struct TokenManager {
    token: Option<Token>,
}

impl View for TokenManager {
    type V = Option<TokenView>;

    closed spec fn view(&self) -> Option<TokenView> {
        match self.token {
            Some(ref t) => Some(t@),
            None => None,
        }
    }
}

impl TokenManager {
    /// A fresh, unauthenticated session.
    pub fn new() -> (r: TokenManager)
        ensures
            r@ is None,
    {
        TokenManager { token: None }
    }

    /// Installs a token: code exchange, successful refresh, or recovery of a
    /// stored token at startup.
    pub fn install(&mut self, t: Token)
        ensures
            final(self)@ == Some(t@),
    {
        self.token = Some(t);
    }

    /// Whether an authenticated call must first refresh: there is a token and
    /// its lifetime has elapsed. Expiry is checked lazily at read time, never
    /// stored.
    pub fn needs_refresh(&self, now_seconds: u64) -> (r: bool)
        ensures
            r == match self@ {
                Some(t) => token_expired(t, now_seconds as int),
                None => false,
            },
    {
        match &self.token {
            Some(t) => t.is_expired(now_seconds),
            None => false,
        }
    }

    /// Whether the session holds a token.
    pub fn is_authenticated(&self) -> (r: bool)
        ensures
            r == (self@ is Some),
    {
        self.token.is_some()
    }

    /// A copy of the current token, for building the bearer header or a
    /// refresh request.
    pub fn current(&self) -> (r: Option<Token>)
        ensures
            match r {
                Some(t) => self@ == Some(t@),
                None => self@ is None,
            },
    {
        match &self.token {
            Some(t) => Some(t.duplicate()),
            None => None,
        }
    }

    /// A successful refresh swaps in the replacement token whole: all five
    /// fields change together, never one at a time.
    pub fn apply_refresh_success(&mut self, new_token: Token)
        ensures
            final(self)@ == Some(new_token@),
    {
        self.token = Some(new_token);
    }

    /// A terminal refresh failure, or a revocation, destroys the token: the
    /// session drops to unauthenticated.
    pub fn clear(&mut self)
        ensures
            final(self)@ is None,
    {
        self.token = None;
    }
}

/// Once a refresh has installed a token, every reader that checks expiry
/// before the token's lifetime elapses finds it valid and so does not start
/// another refresh: with transitions serialized, one refresh serves all
/// concurrent callers.
pub proof fn lemma_refresh_serves_all(t: TokenView, read_time: int)
    requires
        read_time < t.created_at + t.expires_in,
    ensures
        !token_expired(t, read_time),
{
}

/// The serialized form in which a token is persisted, and in which the
/// authorization server delivers one.
pub open spec fn token_json(t: TokenView) -> Seq<char> {
    "{\"access_token\":"@ + spec_json_string(t.access_token) + ",\"token_type\":"@
        + spec_json_string(t.token_type) + ",\"expires_in\":"@ + spec_dec(t.expires_in)
        + ",\"refresh_token\":"@ + spec_json_string(t.refresh_token) + ",\"scope\":"@
        + spec_json_string(t.scope) + ",\"created_at\":"@ + spec_dec(t.created_at) + "}"@
}

/// Serializes a token for the configuration store.
pub fn token_to_json(t: &Token) -> (r: String)
    ensures
        r@ == token_json(t@),
{
    let mut out: String = "{\"access_token\":".to_owned();
    append_json_string(&mut out, t.access_token.as_str());
    out.append(",\"token_type\":");
    append_json_string(&mut out, t.token_type.as_str());
    out.append(",\"expires_in\":");
    append_u64(&mut out, t.expires_in as u64);
    out.append(",\"refresh_token\":");
    append_json_string(&mut out, t.refresh_token.as_str());
    out.append(",\"scope\":");
    append_json_string(&mut out, t.scope.as_str());
    out.append(",\"created_at\":");
    append_u64(&mut out, t.created_at);
    out.append("}");
    proof {
        assert(out@ =~= token_json(t@));
    }
    out
}

/// The body of a refresh request: the stored refresh token together with the
/// client credentials, asking for the refresh grant.
pub open spec fn refresh_body_json(
    refresh_token: Seq<char>,
    client_id: Seq<char>,
    client_secret: Seq<char>,
    redirect_uri: Seq<char>,
) -> Seq<char> {
    "{\"refresh_token\":"@ + spec_json_string(refresh_token) + ",\"client_id\":"@
        + spec_json_string(client_id) + ",\"client_secret\":"@ + spec_json_string(client_secret)
        + ",\"redirect_uri\":"@ + spec_json_string(redirect_uri)
        + ",\"grant_type\":\"refresh_token\"}"@
}

/// Builds the refresh request body.
pub fn make_refresh_body(
    refresh_token: &str,
    client_id: &str,
    client_secret: &str,
    redirect_uri: &str,
) -> (r: String)
    ensures
        r@ == refresh_body_json(refresh_token@, client_id@, client_secret@, redirect_uri@),
{
    let mut out: String = "{\"refresh_token\":".to_owned();
    append_json_string(&mut out, refresh_token);
    out.append(",\"client_id\":");
    append_json_string(&mut out, client_id);
    out.append(",\"client_secret\":");
    append_json_string(&mut out, client_secret);
    out.append(",\"redirect_uri\":");
    append_json_string(&mut out, redirect_uri);
    out.append(",\"grant_type\":\"refresh_token\"}");
    proof {
        assert(out@ =~= refresh_body_json(refresh_token@, client_id@, client_secret@,
            redirect_uri@));
    }
    out
}

/// The body of a revocation request: the access token being revoked and the
/// client credentials.
pub open spec fn revoke_body_json(
    access_token: Seq<char>,
    client_id: Seq<char>,
    client_secret: Seq<char>,
) -> Seq<char> {
    "{\"token\":"@ + spec_json_string(access_token) + ",\"client_id\":"@ + spec_json_string(
        client_id,
    ) + ",\"client_secret\":"@ + spec_json_string(client_secret) + "}"@
}

/// Builds the revocation request body.
pub fn make_revoke_body(access_token: &str, client_id: &str, client_secret: &str) -> (r: String)
    ensures
        r@ == revoke_body_json(access_token@, client_id@, client_secret@),
{
    let mut out: String = "{\"token\":".to_owned();
    append_json_string(&mut out, access_token);
    out.append(",\"client_id\":");
    append_json_string(&mut out, client_id);
    out.append(",\"client_secret\":");
    append_json_string(&mut out, client_secret);
    out.append("}");
    proof {
        assert(out@ =~= revoke_body_json(access_token@, client_id@, client_secret@));
    }
    out
}


/// The body of an authorization-code exchange: the browser-delivered code
/// together with the client credentials, asking for the authorization-code
/// grant.
pub open spec fn code_exchange_body_json(
    code: Seq<char>,
    client_id: Seq<char>,
    client_secret: Seq<char>,
    redirect_uri: Seq<char>,
) -> Seq<char> {
    "{\"code\":"@ + spec_json_string(code) + ",\"client_id\":"@ + spec_json_string(client_id)
        + ",\"client_secret\":"@ + spec_json_string(client_secret) + ",\"redirect_uri\":"@
        + spec_json_string(redirect_uri) + ",\"grant_type\":\"authorization_code\"}"@
}

/// Builds the authorization-code exchange body.
pub fn make_code_exchange_body(
    code: &str,
    client_id: &str,
    client_secret: &str,
    redirect_uri: &str,
) -> (r: String)
    ensures
        r@ == code_exchange_body_json(code@, client_id@, client_secret@, redirect_uri@),
{
    let mut out: String = "{\"code\":".to_owned();
    append_json_string(&mut out, code);
    out.append(",\"client_id\":");
    append_json_string(&mut out, client_id);
    out.append(",\"client_secret\":");
    append_json_string(&mut out, client_secret);
    out.append(",\"redirect_uri\":");
    append_json_string(&mut out, redirect_uri);
    out.append(",\"grant_type\":\"authorization_code\"}");
    proof {
        assert(out@ =~= code_exchange_body_json(code@, client_id@, client_secret@,
            redirect_uri@));
    }
    out
}

} // verus!
