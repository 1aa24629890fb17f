//! The authenticated client and the token lifecycle: request preparation,
//! the single-refresh 401 protocol, serialized bodies, and the up-next
//! selection.

use mytv_core::auth::{make_code_exchange_body, make_refresh_body, make_revoke_body, token_to_json, TokenManager};
use mytv_core::client::{
    accept_success_body, classify_method, prepare_request, resolve_url, settle_error_response,
    ApiClient, HttpMethod,
};
use mytv_core::model::{Episode, EpisodeIds, Images, MovieTranslation, SeasonTranslation, Show,
    ShowIds};
use mytv_core::progress::{build_up_next_item, scan_window, sort_up_next, ShowProgress,
    ShowProgressSummary, UpNextItem};
use mytv_core::proxy::make_data_url;
use mytv_core::strutil::u64_to_string;
use mytv_core::sync::sync_request_body;
use mytv_core::token::Token;
use mytv_core::translation::{process_movie_translations, process_season_translations};

fn token(access: &str, refresh: &str, created_at: u64, expires_in: u32) -> Token {
    Token {
        access_token: String::from(access),
        token_type: String::from("bearer"),
        expires_in,
        refresh_token: String::from(refresh),
        scope: String::from("public"),
        created_at,
    }
}

#[test]
fn token_expiry_boundary() {
    let t = token("a", "r", 1_000, 60);
    assert!(!t.is_expired(1_059));
    assert!(t.is_expired(1_060));
    assert!(t.is_expired(2_000));
}

#[test]
fn refresh_serves_all_concurrent_callers() {
    // An expired token forces exactly one refresh; once the refreshed token
    // is installed, every later check within its lifetime finds it valid, so
    // no second refresh is started.
    let mut mgr = TokenManager::new();
    assert!(!mgr.needs_refresh(5_000));
    mgr.install(token("old", "r1", 0, 60));
    assert!(mgr.needs_refresh(5_000));
    mgr.apply_refresh_success(token("new", "r2", 5_000, 3600));
    for delta in [0u64, 1, 100, 3_599] {
        assert!(!mgr.needs_refresh(5_000 + delta));
    }
    let current = mgr.current().expect("authenticated");
    assert_eq!(current.access_token, "new");
    assert_eq!(current.refresh_token, "r2");
}

#[test]
fn no_auto_retry_on_401_after_successful_refresh() {
    // The 401 that triggered the refresh is still what the caller receives;
    // the session is healed only for the next call.
    let mut client = ApiClient::new(None);
    let mut mgr = TokenManager::new();
    let status = settle_error_response(&mut client, &mut mgr, 401, Some(Ok(token(
        "fresh", "r", 10, 60,
    ))));
    assert_eq!(status, 401);
    assert!(client.authenticated);
    assert_eq!(mgr.current().unwrap().access_token, "fresh");
}

#[test]
fn failed_refresh_clears_session() {
    let initial = token("stale", "r", 0, 1);
    let mut client = ApiClient::new(Some(&initial));
    let mut mgr = TokenManager::new();
    mgr.install(initial);
    let status = settle_error_response(&mut client, &mut mgr, 401, Some(Err(500)));
    assert_eq!(status, 401);
    assert!(!client.authenticated);
    assert!(mgr.current().is_none());
}

#[test]
fn other_errors_pass_through_untouched() {
    let mut client = ApiClient::new(None);
    let mut mgr = TokenManager::new();
    assert_eq!(settle_error_response(&mut client, &mut mgr, 404, None), 404);
    assert!(!client.authenticated);
    assert!(mgr.current().is_none());
}

#[test]
fn method_classification_ignores_case() {
    assert_eq!(classify_method("GET"), Some(HttpMethod::Get));
    assert_eq!(classify_method("post"), Some(HttpMethod::Post));
    assert_eq!(classify_method("Put"), Some(HttpMethod::Put));
    assert_eq!(classify_method("DELETE"), Some(HttpMethod::Delete));
    assert_eq!(classify_method("PATCH"), None);
}

#[test]
fn url_resolution() {
    assert_eq!(resolve_url("/movies/trending"), "https://api.trakt.tv/movies/trending");
    assert_eq!(resolve_url("movies/trending"), "https://api.trakt.tv/movies/trending");
    assert_eq!(resolve_url("https://example.org/x"), "https://example.org/x");
}

#[test]
fn prepared_request_carries_query_parameters() {
    let client = ApiClient::new(None);
    let plan = prepare_request(&client, "GET", "/calendars/all/movies", None, None, Some(100),
        Some(1), true).expect("prepared");
    assert_eq!(plan.method, HttpMethod::Get);
    assert!(!plan.attach_auth);
    let parsed = url::Url::parse(&plan.url).expect("a URL");
    let pairs: Vec<(String, String)> = parsed
        .query_pairs()
        .map(|(k, v)| (k.into_owned(), v.into_owned()))
        .collect();
    assert_eq!(pairs, vec![
        (String::from("extended"), String::from("images")),
        (String::from("limit"), String::from("100")),
        (String::from("page"), String::from("1")),
    ]);
}

#[test]
fn prepared_request_encodes_caller_parameters() {
    let client = ApiClient::new(None);
    let params = vec![(String::from("query"), String::from("the office us"))];
    let plan = prepare_request(&client, "get", "/search/show", Some(params), None, Some(20), None,
        true).expect("prepared");
    let parsed = url::Url::parse(&plan.url).unwrap();
    let found: Vec<(String, String)> = parsed
        .query_pairs()
        .map(|(k, v)| (k.into_owned(), v.into_owned()))
        .collect();
    assert!(found.contains(&(String::from("query"), String::from("the office us"))));
}

#[test]
fn unsupported_method_is_405() {
    let client = ApiClient::new(None);
    match prepare_request(&client, "patch", "/x", None, None, None, None, false) {
        Err(code) => assert_eq!(code, 405),
        Ok(_) => panic!("a patch must be rejected"),
    }
}

#[test]
fn success_body_must_be_json() {
    assert_eq!(accept_success_body(String::from("[1,2]")).unwrap(), "[1,2]");
    assert_eq!(accept_success_body(String::from("{\"ok\":true}")).unwrap(), "{\"ok\":true}");
    assert_eq!(accept_success_body(String::from("not json")).unwrap_err(), 500);
}

#[test]
fn token_json_escapes_and_roundtrips() {
    let t = token("acc\"ess\\tok", "refr", 123, 7200);
    let body = token_to_json(&t);
    let v: serde_json::Value = serde_json::from_str(&body).expect("valid JSON");
    assert_eq!(v["access_token"], serde_json::Value::String(String::from("acc\"ess\\tok")));
    assert_eq!(v["token_type"], serde_json::Value::String(String::from("bearer")));
    assert_eq!(v["expires_in"], serde_json::Value::from(7200u64));
    assert_eq!(v["refresh_token"], serde_json::Value::String(String::from("refr")));
    assert_eq!(v["created_at"], serde_json::Value::from(123u64));
}

#[test]
fn refresh_body_fields() {
    let body = make_refresh_body("rtok", "cid", "SECRET-REDACTED", "/oauth/callback");
    let v: serde_json::Value = serde_json::from_str(&body).unwrap();
    assert_eq!(v["refresh_token"], serde_json::Value::String(String::from("rtok")));
    assert_eq!(v["client_id"], serde_json::Value::String(String::from("cid")));
    assert_eq!(v["grant_type"], serde_json::Value::String(String::from("refresh_token")));
    let revoke = make_revoke_body("atok", "cid", "SECRET-REDACTED");
    let rv: serde_json::Value = serde_json::from_str(&revoke).unwrap();
    assert_eq!(rv["token"], serde_json::Value::String(String::from("atok")));
}

#[test]
fn sync_bodies_by_media_type() {
    assert_eq!(sync_request_body("movie", 123, false),
        "{\"movies\":[{\"ids\":{\"trakt\":123}}]}");
    assert_eq!(sync_request_body("season", 9, false),
        "{\"seasons\":[{\"ids\":{\"trakt\":9}}]}");
    assert_eq!(sync_request_body("show", 7, false), "{\"shows\":[{\"ids\":{\"trakt\":7}}]}");
    // Only the history endpoint accepts bare episodes.
    assert_eq!(sync_request_body("episode", 5, false),
        "{\"shows\":[{\"ids\":{\"trakt\":5}}]}");
    assert_eq!(sync_request_body("episode", 5, true),
        "{\"episodes\":[{\"ids\":{\"trakt\":5}}]}");
    let v: serde_json::Value = serde_json::from_str(&sync_request_body("movie", 123, false))
        .unwrap();
    assert_eq!(v["movies"][0]["ids"]["trakt"], serde_json::Value::from(123u64));
}

#[test]
fn decimal_rendering() {
    assert_eq!(u64_to_string(0), "0");
    assert_eq!(u64_to_string(7), "7");
    assert_eq!(u64_to_string(1234567890), "1234567890");
    assert_eq!(u64_to_string(u64::MAX), "18446744073709551615");
}

#[test]
fn data_url_framing() {
    let bytes: Vec<u8> = vec![104, 101, 108, 108, 111];
    assert_eq!(make_data_url("text/plain", &bytes), "data:text/plain;base64,aGVsbG8=");
    let empty: Vec<u8> = vec![];
    assert_eq!(make_data_url("image/jpeg", &empty), "data:image/jpeg;base64,");
}

#[test]
fn translation_preference_order() {
    let mk = |country: &str, title: &str| MovieTranslation {
        title: Some(String::from(title)),
        overview: None,
        tagline: None,
        language: Some(String::from("zh")),
        country: Some(String::from(country)),
    };
    let ts = vec![mk("us", "English"), mk("tw", "Traditional"), mk("cn", "Simplified")];
    let picked = process_movie_translations(&ts, 42).expect("chosen");
    assert_eq!(picked.title.as_deref(), Some("Simplified"));
    assert_eq!(picked.updated_at, 42);
    let no_cn = vec![mk("us", "English"), mk("hk", "HongKong"), mk("tw", "Traditional")];
    assert_eq!(process_movie_translations(&no_cn, 0).unwrap().title.as_deref(),
        Some("Traditional"));
    let fallback = vec![mk("fr", "French"), mk("de", "German")];
    assert_eq!(process_movie_translations(&fallback, 0).unwrap().title.as_deref(), Some("French"));
    let empty: Vec<MovieTranslation> = vec![];
    assert!(process_movie_translations(&empty, 0).is_none());
}

#[test]
fn season_translations_drop_tagline() {
    let ts = vec![SeasonTranslation {
        title: Some(String::from("T")),
        overview: Some(String::from("O")),
        language: None,
        country: Some(String::from("cn")),
    }];
    let picked = process_season_translations(&ts, 1).unwrap();
    assert_eq!(picked.title.as_deref(), Some("T"));
    assert!(picked.tagline.is_none());
}

fn sample_show(n: u32) -> Show {
    Show {
        title: String::from("s"),
        year: 2024,
        ids: ShowIds {
            trakt: n,
            slug: String::from("s"),
            tvdb: 2,
            imdb: String::from("tt2"),
            tmdb: 3,
            tvrage: None,
        },
        images: Images {
            poster: vec![],
            fanart: vec![],
            clearart: vec![],
            logo: vec![],
            banner: vec![],
            thumb: vec![],
        },
    }
}

fn episode() -> Episode {
    Episode { season: 1, number: 1, title: None, ids: EpisodeIds { trakt: 1, tvdb: None, tmdb:
        None } }
}

#[test]
fn up_next_selection_rules() {
    let complete = ShowProgress { aired: 10, completed: 10, last_watched_at: None, next_episode:
        Some(episode()) };
    assert!(build_up_next_item(sample_show(1), complete).is_none());
    let no_next = ShowProgress { aired: 10, completed: 3, last_watched_at: None, next_episode:
        None };
    assert!(build_up_next_item(sample_show(1), no_next).is_none());
    let pending = ShowProgress {
        aired: 10,
        completed: 3,
        last_watched_at: Some(String::from("2024-01-01T00:00:00Z")),
        next_episode: Some(episode()),
    };
    let item = build_up_next_item(sample_show(1), pending).expect("selected");
    assert_eq!(item.progress.aired, 10);
    assert_eq!(item.progress.completed, 3);
}

#[test]
fn up_next_sorted_most_recent_first() {
    let mk = |n: u32, when: Option<&str>| UpNextItem {
        show: sample_show(n),
        next_episode: episode(),
        progress: ShowProgressSummary {
            aired: 5,
            completed: 1,
            last_watched_at: when.map(String::from),
        },
    };
    let items = vec![
        mk(1, Some("2024-01-01T00:00:00Z")),
        mk(2, Some("2024-03-01T00:00:00Z")),
        mk(3, None),
        mk(4, Some("2024-02-01T00:00:00Z")),
    ];
    let sorted = sort_up_next(items);
    let order: Vec<u32> = sorted.iter().map(|i| i.show.ids.trakt).collect();
    assert_eq!(order, vec![2, 4, 1, 3]);
}

#[test]
fn scan_window_triples_the_page() {
    assert_eq!(scan_window(1, 20), (0, 60));
    assert_eq!(scan_window(3, 20), (120, 60));
}

#[test]
fn code_exchange_body_fields() {
    let body = make_code_exchange_body("thecode", "cid", "SECRET-REDACTED",
        "http://localhost:4396/oauth/callback");
    let v: serde_json::Value = serde_json::from_str(&body).unwrap();
    assert_eq!(v["code"], serde_json::Value::String(String::from("thecode")));
    assert_eq!(v["grant_type"], serde_json::Value::String(String::from("authorization_code")));
    assert_eq!(v["redirect_uri"],
        serde_json::Value::String(String::from("http://localhost:4396/oauth/callback")));
}

#[test]
fn up_next_ties_keep_arrival_order() {
    let mk = |n: u32, when: &str| UpNextItem {
        show: sample_show(n),
        next_episode: episode(),
        progress: ShowProgressSummary {
            aired: 5,
            completed: 1,
            last_watched_at: Some(String::from(when)),
        },
    };
    // Two entries watched at the same instant keep their order of arrival.
    let items = vec![
        mk(1, "2024-02-01T00:00:00Z"),
        mk(2, "2024-03-01T00:00:00Z"),
        mk(3, "2024-02-01T00:00:00Z"),
    ];
    let sorted = sort_up_next(items);
    let order: Vec<u32> = sorted.iter().map(|i| i.show.ids.trakt).collect();
    assert_eq!(order, vec![2, 1, 3]);
}
