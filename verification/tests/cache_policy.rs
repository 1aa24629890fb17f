//! The cache policy over the key-value tables: freshness classification,
//! expiry eviction, last-write-wins, and the translation table.

use mytv_core::cache::{
    delete_config, get_api_response_cache, get_config, get_media_cache, get_user_data_cache,
    set_api_response_cache, set_config, set_media_cache, set_user_data_cache, swr_action,
    CacheResult, SwrAction, CACHE_TTL_API, CACHE_TTL_SHORT, CACHE_TTL_TRANSLATION,
    STALE_WHILE_REVALIDATE, STALE_WHILE_REVALIDATE_USER,
};
use mytv_core::store::KvTable;
use mytv_core::translation::{
    clear_expired_translations, get_translation_cache, get_translation_cache_stats,
    set_translation_cache, TranslationCacheItem, TranslationData,
};

#[test]
fn media_cache_miss_then_hit() {
    let mut t = KvTable::new();
    assert!(get_media_cache(&mut t, "movie", 42, 1_000).is_none());
    set_media_cache(&mut t, "movie", 42, String::from("{\"a\":1}"), CACHE_TTL_SHORT, 1_000);
    let hit = get_media_cache(&mut t, "movie", 42, 2_000).expect("fresh hit");
    assert_eq!(hit.data, "{\"a\":1}");
    assert!(!hit.is_stale);
}

#[test]
fn freshness_monotonic_fresh_then_stale_never_absent() {
    // A row fresh at one instant is fresh or stale, never absent, at any
    // later instant up to its hard expiry.
    let mut t = KvTable::new();
    let wrote_at = 10_000;
    set_media_cache(&mut t, "movie", 7, String::from("[]"), CACHE_TTL_SHORT, wrote_at);
    let fresh = get_media_cache(&mut t, "movie", 7, wrote_at + 1).expect("present");
    assert!(!fresh.is_stale);
    // Just before the staleness window closes: still fresh.
    let still = get_media_cache(&mut t, "movie", 7, wrote_at + STALE_WHILE_REVALIDATE)
        .expect("present");
    assert!(!still.is_stale);
    // Past the staleness window but before expiry: stale, not absent.
    let stale = get_media_cache(&mut t, "movie", 7, wrote_at + STALE_WHILE_REVALIDATE + 1)
        .expect("present");
    assert!(stale.is_stale);
    // At the expiry instant itself the row is still served.
    let last = get_media_cache(&mut t, "movie", 7, wrote_at + CACHE_TTL_SHORT).expect("present");
    assert!(last.is_stale);
}

#[test]
fn expiry_absolute_and_idempotent() {
    let mut t = KvTable::new();
    set_media_cache(&mut t, "movie", 9, String::from("1"), CACHE_TTL_SHORT, 0);
    // One past the expiry: absent, and the row is gone.
    assert!(get_media_cache(&mut t, "movie", 9, CACHE_TTL_SHORT + 1).is_none());
    // A second read behaves identically.
    assert!(get_media_cache(&mut t, "movie", 9, CACHE_TTL_SHORT + 1).is_none());
    // Even a read at an earlier time now misses: the row was evicted.
    assert!(get_media_cache(&mut t, "movie", 9, 1).is_none());
}

#[test]
fn last_write_wins_single_row() {
    let mut t = KvTable::new();
    set_media_cache(&mut t, "show", 5, String::from("first"), CACHE_TTL_SHORT, 100);
    set_media_cache(&mut t, "show", 5, String::from("second"), CACHE_TTL_SHORT, 200);
    let hit = get_media_cache(&mut t, "show", 5, 300).expect("present");
    assert_eq!(hit.data, "second");
    // Exactly one row: after one eviction past expiry nothing is left.
    assert!(get_media_cache(&mut t, "show", 5, 200 + CACHE_TTL_SHORT + 1).is_none());
    assert!(get_media_cache(&mut t, "show", 5, 150).is_none());
}

#[test]
fn media_keys_do_not_collide_across_ids() {
    let mut t = KvTable::new();
    set_media_cache(&mut t, "movie", 1, String::from("one"), CACHE_TTL_SHORT, 0);
    set_media_cache(&mut t, "movie", 11, String::from("eleven"), CACHE_TTL_SHORT, 0);
    assert_eq!(get_media_cache(&mut t, "movie", 1, 1).unwrap().data, "one");
    assert_eq!(get_media_cache(&mut t, "movie", 11, 1).unwrap().data, "eleven");
}

#[test]
fn user_data_never_expires_but_goes_stale() {
    let mut t = KvTable::new();
    set_user_data_cache(&mut t, "watchlist_movies_alice", String::from("[1]"), 1_000);
    let fresh = get_user_data_cache(&t, "watchlist_movies_alice", 1_000
        + STALE_WHILE_REVALIDATE_USER).expect("present");
    assert!(!fresh.is_stale);
    let stale = get_user_data_cache(&t, "watchlist_movies_alice", 1_000
        + STALE_WHILE_REVALIDATE_USER + 1).expect("present");
    assert!(stale.is_stale);
    // Far in the future the row is still there: user data has no hard expiry.
    let far = get_user_data_cache(&t, "watchlist_movies_alice", i64::MAX - 1).expect("present");
    assert!(far.is_stale);
    assert_eq!(far.data, "[1]");
}

#[test]
fn api_response_cache_all_or_nothing() {
    let mut t = KvTable::new();
    set_api_response_cache(&mut t, "api_show_trending", String::from("[2]"), 0);
    // Inside the window: served, no staleness notion.
    assert_eq!(get_api_response_cache(&mut t, "api_show_trending", CACHE_TTL_API).unwrap(), "[2]");
    // Past the window: evicted.
    assert!(get_api_response_cache(&mut t, "api_show_trending", CACHE_TTL_API + 1).is_none());
    assert!(get_api_response_cache(&mut t, "api_show_trending", 1).is_none());
}

#[test]
fn config_roundtrip_and_delete() {
    let mut t = KvTable::new();
    assert!(get_config(&t, "token").is_none());
    set_config(&mut t, "token", String::from("{\"x\":1}"), 50);
    assert_eq!(get_config(&t, "token").unwrap(), "{\"x\":1}");
    delete_config(&mut t, "token");
    assert!(get_config(&t, "token").is_none());
}

#[test]
fn swr_action_mapping() {
    assert_eq!(swr_action(&None, true), SwrAction::FetchMiss);
    let fresh = Some(CacheResult { data: String::from("x"), is_stale: false });
    assert_eq!(swr_action(&fresh, true), SwrAction::UseFresh);
    let stale = Some(CacheResult { data: String::from("x"), is_stale: true });
    assert_eq!(swr_action(&stale, true), SwrAction::UseStaleAndRevalidate);
    // A payload that failed to decode counts as a miss, whatever its age.
    assert_eq!(swr_action(&stale, false), SwrAction::FetchMiss);
}

#[test]
fn translation_row_roundtrip() {
    let mut t = KvTable::new();
    set_translation_cache(
        &mut t,
        "movie",
        3,
        &Some(String::from("Title \"quoted\"")),
        &Some(String::from("over\\view")),
        &None,
        500,
    );
    let payload = get_translation_cache(&mut t, "movie", 3, 600).expect("present");
    let v: serde_json::Value = serde_json::from_str(&payload).expect("stored row is JSON");
    assert_eq!(v["title"], serde_json::Value::String(String::from("Title \"quoted\"")));
    assert_eq!(v["overview"], serde_json::Value::String(String::from("over\\view")));
    assert!(v["tagline"].is_null());
    assert_eq!(v["updated_at"], serde_json::Value::from(500u64));
    // Expired rows are evicted.
    assert!(get_translation_cache(&mut t, "movie", 3, 500 + CACHE_TTL_TRANSLATION + 1).is_none());
    assert!(get_translation_cache(&mut t, "movie", 3, 600).is_none());
}

#[test]
fn clear_expired_translations_counts_and_removes() {
    let mut t = KvTable::new();
    set_translation_cache(&mut t, "movie", 1, &None, &None, &None, 0);
    set_translation_cache(&mut t, "movie", 2, &None, &None, &None, 1_000_000);
    set_translation_cache(&mut t, "show", 3, &None, &None, &None, 0);
    // At this instant the two rows written at time zero are expired.
    let now = CACHE_TTL_TRANSLATION + 1;
    let cleared = clear_expired_translations(&mut t, now);
    assert_eq!(cleared, 2);
    assert!(get_translation_cache(&mut t, "movie", 1, now).is_none());
    assert!(get_translation_cache(&mut t, "movie", 2, now).is_some());
    let again = clear_expired_translations(&mut t, now);
    assert_eq!(again, 0);
}

#[test]
fn translation_cache_stats() {
    let mut t = KvTable::new();
    let (total, expired) = get_translation_cache_stats(&t, 0);
    assert_eq!((total, expired), (0, 0));
    set_translation_cache(&mut t, "movie", 1, &None, &None, &None, 0);
    set_translation_cache(&mut t, "movie", 2, &None, &None, &None, 1_000_000);
    let now = CACHE_TTL_TRANSLATION + 1;
    let (total, expired) = get_translation_cache_stats(&t, now);
    assert_eq!(total, 2);
    assert_eq!(expired, 1);
}

#[test]
fn translation_cache_item_expiry() {
    let item = TranslationCacheItem {
        data: Some(TranslationData {
            title: Some(String::from("t")),
            overview: None,
            tagline: None,
            updated_at: 10,
        }),
        updated_at: 10,
        expires_at: 100,
    };
    assert!(!item.is_expired_at(100));
    assert!(item.is_expired_at(101));
}

#[test]
fn translation_cache_item_new_windows() {
    let item = TranslationCacheItem::new(None, 1000);
    assert!(item.updated_at <= item.expires_at);
    assert_eq!(item.expires_at - item.updated_at, 1000);
    assert!(!item.is_expired_at(item.updated_at));
    assert!(item.is_expired_at(item.expires_at + 1));
}
