//! The authenticated upstream client, as a state machine over explicit
//! inputs.
//!
//! The client itself holds only its authentication flag; the HTTP session
//! that mirrors it lives in the surrounding application. A request is
//! prepared here (URL resolution, query parameters, method check), executed
//! by the application, and its outcome is settled here: a success body must
//! parse as JSON or the call reports an internal error; a 401 triggers
//! exactly one refresh attempt whose outcome updates the session, while the
//! original status is returned unchanged — the request is never replayed.

use vstd::prelude::*;
use vstd::string::*;
use crate::auth::TokenManager;
use crate::strutil::{spec_dec, str_starts_with, u64_to_string};
use crate::token::Token;

verus! {

/// The upstream API host.
pub fn api_host() -> (r: &'static str)
    ensures
        r@ == "https://api.trakt.tv"@,
{
    "https://api.trakt.tv"
}

/// The HTTP methods the upstream accepts.
#[derive(Clone, Copy, PartialEq, Eq, Structural, Debug)]
pub enum HttpMethod {
    Get,
    Post,
    Put,
    Delete,
}

/// Lowercasing of one ASCII letter, as the method check applies it.
pub open spec fn ascii_lower_char(c: char) -> char {
    if 65 <= c as u32 <= 90 {
        (((c as u32) + 32) as u8) as char
    } else {
        c
    }
}

/// Lowercasing of a whole sequence.
pub open spec fn ascii_lower(s: Seq<char>) -> Seq<char> {
    s.map_values(|c: char| ascii_lower_char(c))
}

/// The method a request string names, compared without regard to ASCII case:
/// anything else is rejected.
pub open spec fn spec_method_of(s: Seq<char>) -> Option<HttpMethod> {
    if ascii_lower(s) == "get"@ {
        Some(HttpMethod::Get)
    } else if ascii_lower(s) == "post"@ {
        Some(HttpMethod::Post)
    } else if ascii_lower(s) == "put"@ {
        Some(HttpMethod::Put)
    } else if ascii_lower(s) == "delete"@ {
        Some(HttpMethod::Delete)
    } else {
        None
    }
}

fn ascii_lower_exec(s: &str) -> (r: String)
    ensures
        r@ == ascii_lower(s@),
{
    let n = s.unicode_len();
    let mut out = String::new();
    let mut i: usize = 0;
    while i < n
        invariant
            i <= n,
            n == s@.len(),
            out@ == ascii_lower(s@.take(i as int)),
        decreases n - i,
    {
        let c = s.get_char(i);
        let code = c as u32;
        let lc: char = if 65 <= code && code <= 90 {
            ((code + 32) as u8) as char
        } else {
            c
        };
        proof {
            assert(lc == ascii_lower_char(c));
        }
        crate::strutil::push_char(&mut out, lc);
        proof {
            assert(s@.take(i + 1) =~= s@.take(i as int).push(s@[i as int]));
            assert(ascii_lower(s@.take(i + 1)) =~= ascii_lower(s@.take(i as int)).push(
                ascii_lower_char(s@[i as int]),
            ));
        }
        i += 1;
    }
    proof {
        assert(s@.take(n as int) =~= s@);
    }
    out
}

/// Parses the method of a request, without regard to ASCII case.
pub fn classify_method(method: &str) -> (r: Option<HttpMethod>)
    ensures
        r == spec_method_of(method@),
{
    let lower = ascii_lower_exec(method);
    if lower == "get".to_owned() {
        Some(HttpMethod::Get)
    } else if lower == "post".to_owned() {
        Some(HttpMethod::Post)
    } else if lower == "put".to_owned() {
        Some(HttpMethod::Put)
    } else if lower == "delete".to_owned() {
        Some(HttpMethod::Delete)
    } else {
        None
    }
}

/// What a URL string becomes when one query pair is appended to it, in the
/// form-urlencoded encoding; nothing, where the string is not a URL.
pub uninterp spec fn url_pair_of(u: Seq<char>, k: Seq<char>, v: Seq<char>) -> Option<Seq<char>>;

/// Relies on url's `Url::parse` and `Url::query_pairs_mut().append_pair`:
/// the pair is percent-encoded and appended to the URL's query; parsing fails
/// only on a string that is not an absolute URL.
#[verifier::external_body]
fn url_append_pair(u: &str, k: &str, v: &str) -> (r: Option<String>)
    ensures
        match r {
            Some(s) => url_pair_of(u@, k@, v@) == Some(s@),
            None => url_pair_of(u@, k@, v@) is None,
        },
{
    match url::Url::parse(u) {
        Ok(mut parsed) => {
            parsed.query_pairs_mut().append_pair(k, v);
            Some(String::from(parsed))
        }
        Err(_) => None,
    }
}

/// One step of query building over an optional URL.
pub open spec fn with_pair(u: Option<Seq<char>>, k: Seq<char>, v: Seq<char>) -> Option<Seq<char>> {
    match u {
        Some(s) => url_pair_of(s, k, v),
        None => None,
    }
}

/// Query building folded over a list of pairs, left to right.
pub open spec fn with_pairs(u: Option<Seq<char>>, ps: Seq<(Seq<char>, Seq<char>)>) -> Option<
    Seq<char>,
>
    decreases ps.len(),
{
    if ps.len() == 0 {
        u
    } else {
        with_pair(with_pairs(u, ps.drop_last()), ps.last().0, ps.last().1)
    }
}

/// The absolute URL a request URI resolves to: an absolute URI passes
/// through, a relative one is joined to the API host, gaining a leading
/// slash if it lacks one.
pub open spec fn resolved_url(uri: Seq<char>) -> Seq<char> {
    if uri.len() >= 4 && uri.subrange(0, 4) == "http"@ {
        uri
    } else if uri.len() >= 1 && uri[0] == '/' {
        "https://api.trakt.tv"@ + uri
    } else {
        "https://api.trakt.tv"@ + "/"@ + uri
    }
}

/// The standard query parameters of one request, in the order they are
/// attached: the image extension, then the page size, then the page number.
pub open spec fn standard_pairs(limit: Option<u32>, page: Option<u32>, images: bool) -> Seq<
    (Seq<char>, Seq<char>),
> {
    let base: Seq<(Seq<char>, Seq<char>)> = if images {
        seq![("extended"@, "images"@)]
    } else {
        Seq::empty()
    };
    let with_limit: Seq<(Seq<char>, Seq<char>)> = match limit {
        Some(l) => base.push(("limit"@, spec_dec(l as int))),
        None => base,
    };
    match page {
        Some(p) => with_limit.push(("page"@, spec_dec(p as int))),
        None => with_limit,
    }
}

/// A prepared request: what the application's HTTP session must execute.
pub struct RequestPlan {
    pub method: HttpMethod,
    pub url: String,
    pub body: Option<String>,
    pub attach_auth: bool,
}


/// The client: one upstream session, either authenticated (a bearer header
/// is attached to every request) or not. The header set itself is rebuilt by
/// the application whenever this flag or the token changes.
pub struct ApiClient {
    pub authenticated: bool,
}

impl ApiClient {
    /// A client is authenticated exactly when a token is present at
    /// construction.
    pub fn new(token: Option<&Token>) -> (r: ApiClient)
        ensures
            r.authenticated == (token is Some),
    {
        ApiClient { authenticated: token.is_some() }
    }

    /// Rebuilds the session after a token change: with a token the client is
    /// authenticated, without one it is not.
    pub fn refresh_client(&mut self, token: Option<&Token>)
        ensures
            final(self).authenticated == (token is Some),
    {
        self.authenticated = token.is_some();
    }
}

/// Resolves a request URI against the API host.
pub fn resolve_url(uri: &str) -> (r: String)
    ensures
        r@ == resolved_url(uri@),
{
    proof {
        reveal_strlit("http");
        reveal_strlit("/");
    }
    if str_starts_with(uri, "http") {
        uri.to_owned()
    } else if str_starts_with(uri, "/") {
        let mut out = api_host().to_owned();
        out.append(uri);
        proof {
            assert(uri@.subrange(0, 1) =~= "/"@);
            assert(uri@[0] == uri@.subrange(0, 1)[0]);
            assert(uri@[0] == '/');
            assert(out@ =~= resolved_url(uri@));
        }
        out
    } else {
        let mut out = api_host().to_owned();
        out.append("/");
        out.append(uri);
        proof {
            if uri@.len() >= 1 && uri@[0] == '/' {
                assert(uri@.subrange(0, 1) =~= "/"@);
            }
            assert(out@ =~= resolved_url(uri@));
        }
        out
    }
}

/// Appends a list of query pairs to a URL, left to right; nothing if the
/// string is not a URL.
fn append_pairs(url: String, pairs: &Vec<(String, String)>) -> (r: Option<String>)
    ensures
        match r {
            Some(s) => with_pairs(
                Some(url@),
                pairs@.map_values(|p: (String, String)| (p.0@, p.1@)),
            ) == Some(s@),
            None => with_pairs(
                Some(url@),
                pairs@.map_values(|p: (String, String)| (p.0@, p.1@)),
            ) is None,
        },
{
    let ghost pv = pairs@.map_values(|p: (String, String)| (p.0@, p.1@));
    let n = pairs.len();
    let mut cur = url;
    let mut i: usize = 0;
    proof {
        assert(pv.skip(0) =~= pv);
    }
    while i < n
        invariant
            i <= n,
            n == pairs@.len(),
            pv == pairs@.map_values(|p: (String, String)| (p.0@, p.1@)),
            with_pairs(Some(cur@), pv.skip(i as int)) == with_pairs(Some(url@), pv),
        decreases n - i,
    {
        proof {
            lemma_with_pairs_step(cur@, pv, i as int);
        }
        match url_append_pair(cur.as_str(), pairs[i].0.as_str(), pairs[i].1.as_str()) {
            Some(next) => {
                cur = next;
            }
            None => {
                proof {
                    lemma_with_pairs_none(pv.skip(i + 1));
                }
                return None;
            }
        }
        i += 1;
    }
    proof {
        assert(pv.skip(n as int) =~= Seq::<(Seq<char>, Seq<char>)>::empty());
    }
    Some(cur)
}

/// Splitting one application off the front of a fold.
proof fn lemma_with_pairs_step(u: Seq<char>, ps: Seq<(Seq<char>, Seq<char>)>, i: int)
    requires
        0 <= i < ps.len(),
    ensures
        with_pairs(Some(u), ps.skip(i)) == with_pairs(
            with_pair(Some(u), ps[i].0, ps[i].1),
            ps.skip(i + 1),
        ),
    decreases ps.len() - i,
{
    lemma_with_pairs_front(Some(u), ps.skip(i));
    assert(ps.skip(i).drop_first() =~= ps.skip(i + 1));
    assert(ps.skip(i).first() == ps[i]);
}

/// A fold over a nonempty list is the fold of its tail over one application.
proof fn lemma_with_pairs_front(u: Option<Seq<char>>, ps: Seq<(Seq<char>, Seq<char>)>)
    requires
        ps.len() > 0,
    ensures
        with_pairs(u, ps) == with_pairs(with_pair(u, ps.first().0, ps.first().1), ps.drop_first()),
    decreases ps.len(),
{
    if ps.len() == 1 {
        assert(ps.drop_first() =~= Seq::<(Seq<char>, Seq<char>)>::empty());
        assert(ps.last() == ps.first());
        assert(ps.drop_last() =~= Seq::<(Seq<char>, Seq<char>)>::empty());
    } else {
        lemma_with_pairs_front(u, ps.drop_last());
        assert(ps.drop_last().first() == ps.first());
        assert(ps.drop_first().drop_last() =~= ps.drop_last().drop_first());
        assert(ps.drop_first().last() == ps.last());
    }
}

/// A failed fold stays failed.
proof fn lemma_with_pairs_none(ps: Seq<(Seq<char>, Seq<char>)>)
    ensures
        with_pairs(None, ps) is None,
    decreases ps.len(),
{
    if ps.len() > 0 {
        lemma_with_pairs_none(ps.drop_last());
    }
}

/// The URL of one request after the standard parameters and, for a read, the
/// caller's own parameters.
pub open spec fn request_url_spec(
    uri: Seq<char>,
    params: Seq<(Seq<char>, Seq<char>)>,
    limit: Option<u32>,
    page: Option<u32>,
    images: bool,
    is_get: bool,
) -> Option<Seq<char>> {
    let with_std = with_pairs(Some(resolved_url(uri)), standard_pairs(limit, page, images));
    if is_get {
        with_pairs(with_std, params)
    } else {
        with_std
    }
}

/// Prepares one upstream request: resolves the URL, attaches the standard
/// query parameters (and, for a read, the caller's parameters), and records
/// whether the bearer header must be attached. An unsupported method is
/// rejected with 405; a URI that does not resolve to a URL with 400.
pub fn prepare_request(
    client: &ApiClient,
    method: &str,
    uri: &str,
    params: Option<Vec<(String, String)>>,
    body: Option<String>,
    limit: Option<u32>,
    page: Option<u32>,
    images: bool,
) -> (r: Result<RequestPlan, u16>)
    ensures
        match r {
            Ok(plan) => {
                &&& spec_method_of(method@) == Some(plan.method)
                &&& request_url_spec(
                    uri@,
                    match params {
                        Some(ref ps) => ps@.map_values(|p: (String, String)| (p.0@, p.1@)),
                        None => Seq::empty(),
                    },
                    limit,
                    page,
                    images,
                    spec_method_of(method@) == Some(HttpMethod::Get),
                ) == Some(plan.url@)
                &&& plan.attach_auth == client.authenticated
                &&& (match (plan.body, body) {
                    (Some(pb), Some(b)) => pb@ == b@,
                    (None, None) => true,
                    _ => false,
                })
            },
            Err(code) => {
                ||| (code == 405 && spec_method_of(method@) is None)
                ||| (code == 400 && spec_method_of(method@) is Some && request_url_spec(
                    uri@,
                    match params {
                        Some(ref ps) => ps@.map_values(|p: (String, String)| (p.0@, p.1@)),
                        None => Seq::empty(),
                    },
                    limit,
                    page,
                    images,
                    spec_method_of(method@) == Some(HttpMethod::Get),
                ) is None)
            },
        },
{
    let m = match classify_method(method) {
        Some(m) => m,
        None => {
            return Err(405);
        }
    };
    let base = resolve_url(uri);
    let mut std_pairs: Vec<(String, String)> = Vec::new();
    if images {
        std_pairs.push(("extended".to_owned(), "images".to_owned()));
    }
    match limit {
        Some(l) => {
            std_pairs.push(("limit".to_owned(), u64_to_string(l as u64)));
        }
        None => {}
    }
    match page {
        Some(p) => {
            std_pairs.push(("page".to_owned(), u64_to_string(p as u64)));
        }
        None => {}
    }
    proof {
        assert(std_pairs@.map_values(|p: (String, String)| (p.0@, p.1@)) =~= standard_pairs(
            limit,
            page,
            images,
        ));
    }
    let with_std = match append_pairs(base, &std_pairs) {
        Some(u) => u,
        None => {
            proof {
                if matches!(m, HttpMethod::Get) {
                    match params {
                        Some(ref ps) => {
                            lemma_with_pairs_none(ps@.map_values(|p: (String, String)| (
                                p.0@,
                                p.1@,
                            )));
                        }
                        None => {}
                    }
                }
            }
            return Err(400);
        }
    };
    let url = if matches!(m, HttpMethod::Get) {
        match params {
            Some(ref ps) => {
                match append_pairs(with_std, ps) {
                    Some(u) => u,
                    None => {
                        return Err(400);
                    }
                }
            }
            None => {
                proof {
                    assert(with_pairs(
                        Some(with_std@),
                        Seq::<(Seq<char>, Seq<char>)>::empty(),
                    ) == Some(with_std@));
                }
                with_std
            }
        }
    } else {
        with_std
    };
    Ok(RequestPlan { method: m, url, body, attach_auth: client.authenticated })
}

/// Whether a byte string is one well-formed JSON document.
pub uninterp spec fn json_ok(s: Seq<char>) -> bool;

/// Relies on serde_json::from_str for `Value`: whether the text parses as one
/// JSON document.
#[verifier::external_body]
fn json_is_valid(s: &str) -> (r: bool)
    ensures
        r == json_ok(s@),
{
    serde_json::from_str::<serde_json::Value>(s).is_ok()
}

/// Settles a successful (2xx) response: the body must be one JSON document,
/// which is handed back verbatim for the caller to decode; a body that does
/// not parse is an internal error, never silently empty data.
pub fn accept_success_body(body: String) -> (r: Result<String, u16>)
    ensures
        match r {
            Ok(b) => json_ok(b@) && b@ == body@,
            Err(code) => code == 500 && !json_ok(body@),
        },
{
    if json_is_valid(body.as_str()) {
        Ok(body)
    } else {
        Err(500)
    }
}

/// Settles a failed (non-2xx) response. A 401 has triggered exactly one
/// refresh attempt, whose result is handed in here: on success the session is
/// rebuilt around the new token; on failure the token is destroyed and the
/// session drops to unauthenticated. Either way the caller receives the
/// original status — the request is never replayed on the new token, so a
/// non-idempotent call cannot run twice.
pub fn settle_error_response(
    client: &mut ApiClient,
    manager: &mut TokenManager,
    status: u16,
    refresh_result: Option<Result<Token, u16>>,
) -> (r: u16)
    requires
        (status == 401) == (refresh_result is Some),
    ensures
        r == status,
        match refresh_result {
            Some(Ok(t)) => final(manager)@ == Some(t@) && final(client).authenticated,
            Some(Err(_)) => final(manager)@ is None && !final(client).authenticated,
            None => final(manager)@ == old(manager)@ && *final(client) == *old(client),
        },
{
    match refresh_result {
        Some(Ok(t)) => {
            client.refresh_client(Some(&t));
            manager.apply_refresh_success(t);
        }
        Some(Err(_)) => {
            manager.clear();
            client.refresh_client(None);
        }
        None => {}
    }
    status
}


/// One endpoint of the upstream catalog: its URI template, HTTP method, and
/// optional default parameters and body. The application loads the catalog
/// from its bundled description and resolves templates before calling in.
#[derive(Clone, Debug)]
pub struct Entry {
    pub uri: String,
    pub method: String,
    pub params: Option<Vec<(String, String)>>,
    pub body: Option<String>,
    pub content_type: Option<String>,
}

#[derive(Clone, Debug)]
pub struct AuthApi {
    pub authorize: Entry,
    pub get_token: Entry,
    pub refresh_token: Entry,
    pub revoke_token: Entry,
}

#[derive(Clone, Debug)]
pub struct RecommandApi {
    pub movies: Entry,
    pub shows: Entry,
}

#[derive(Clone, Debug)]
pub struct SearchApi {
    pub text: Entry,
}

#[derive(Clone, Debug)]
pub struct UserApi {
    pub profile: Entry,
    pub watched: Entry,
    pub stats: Entry,
    pub collection: Entry,
    pub watchlist: Entry,
    pub history: Entry,
}

#[derive(Clone, Debug)]
pub struct MovieApi {
    pub trending: Entry,
    pub details: Entry,
    pub trans: Entry,
}

#[derive(Clone, Debug)]
pub struct ShowApi {
    pub trending: Entry,
    pub details: Entry,
    pub trans: Entry,
    pub seasons: Entry,
    pub season_trans: Entry,
    pub season_episodes: Entry,
    pub episode_details: Entry,
}

#[derive(Clone, Debug)]
pub struct SyncApi {
    pub add_to_collection: Entry,
    pub remove_from_collection: Entry,
    pub add_to_watchlist: Entry,
    pub remove_from_watchlist: Entry,
    pub add_to_history: Entry,
}

/// The upstream endpoint catalog.
#[derive(Clone, Debug)]
pub struct Api {
    pub auth: AuthApi,
    pub recommand: RecommandApi,
    pub search: SearchApi,
    pub user: UserApi,
    pub movie: MovieApi,
    pub shows: ShowApi,
    pub sync: SyncApi,
}

} // verus!
