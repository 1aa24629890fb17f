//! The cache policy engine: TTL computation and freshness classification over
//! the key-value tables.
//!
//! A read classifies the stored row against the current time: a row past its
//! hard expiry is deleted and reported absent; a row past its category's
//! staleness window is returned but flagged stale, so the caller can refresh
//! it in the background; anything else is fresh. A write unconditionally
//! replaces the row (last writer wins). All functions take the current time
//! in milliseconds as an argument.

use vstd::prelude::*;
use vstd::string::*;
use crate::store::{KvTable, RowView};
use crate::strutil::{spec_dec, u64_to_string};

verus! {

/// Time-to-live for rarely-changing media entities: 30 days.
pub const CACHE_TTL_LONG: i64 = 30 * 24 * 60 * 60 * 1000;

/// Time-to-live for media details: 1 day.
pub const CACHE_TTL_SHORT: i64 = 24 * 60 * 60 * 1000;

/// Time-to-live for translations: 7 days.
pub const CACHE_TTL_TRANSLATION: i64 = 7 * 24 * 60 * 60 * 1000;

/// Media rows older than this are served but refreshed in the background.
pub const STALE_WHILE_REVALIDATE: i64 = 60 * 60 * 1000;

/// User-data rows older than this are served but refreshed in the background.
pub const STALE_WHILE_REVALIDATE_USER: i64 = 5 * 60 * 1000;

/// Time-to-live for cached list/API responses: 4 hours.
pub const CACHE_TTL_API: i64 = 4 * 60 * 60 * 1000;

/// A cache hit: the stored payload and whether it is past its staleness
/// window.
pub struct CacheResult {
    pub data: String,
    pub is_stale: bool,
}

/// The composite key of a media row: `{type}_{id}`.
pub open spec fn media_key(media_type: Seq<char>, id: int) -> Seq<char> {
    media_type + "_"@ + spec_dec(id)
}

/// Builds the composite key of a media row.
pub fn make_media_key(media_type: &str, id: u32) -> (k: String)
    ensures
        k@ == media_key(media_type@, id as int),
{
    let mut k = media_type.to_owned();
    k.append("_");
    let digits = u64_to_string(id as u64);
    k.append(digits.as_str());
    proof {
        assert(k@ =~= media_key(media_type@, id as int));
    }
    k
}

/// What one read returns and leaves behind.
pub ghost struct GetOutcome {
    /// The payload and its staleness flag, if the row is present and not
    /// expired.
    pub result: Option<(Seq<char>, bool)>,
    /// The table after the read (expired rows are evicted).
    pub table: Map<Seq<char>, RowView>,
}

/// The read policy for a table with a hard expiry and a staleness window:
/// expired rows are evicted and reported absent, anything else is classified
/// against the staleness window.
pub open spec fn cache_get_spec(
    m: Map<Seq<char>, RowView>,
    k: Seq<char>,
    stale_window: int,
    now: int,
) -> GetOutcome {
    if !m.contains_key(k) {
        GetOutcome { result: None, table: m }
    } else if now > m[k].expires_at {
        GetOutcome { result: None, table: m.remove(k) }
    } else {
        GetOutcome {
            result: Some((m[k].payload, m[k].updated_at + stale_window < now)),
            table: m,
        }
    }
}

/// The write policy: the row is replaced unconditionally, stamped with the
/// write time and its expiry.
pub open spec fn cache_put_spec(
    m: Map<Seq<char>, RowView>,
    k: Seq<char>,
    payload: Seq<char>,
    now: int,
    expires_at: int,
) -> Map<Seq<char>, RowView> {
    m.insert(k, RowView { payload: payload, updated_at: now, expires_at: expires_at })
}

/// Reads a media-details row, evicting it if hard-expired, and classifying it
/// against the media staleness window otherwise.
pub fn get_media_cache(table: &mut KvTable, media_type: &str, trakt_id: u32, now: i64) -> (r:
    Option<CacheResult>)
    requires
        old(table).wf(),
    ensures
        final(table).wf(),
        final(table)@ == cache_get_spec(
            old(table)@,
            media_key(media_type@, trakt_id as int),
            STALE_WHILE_REVALIDATE as int,
            now as int,
        ).table,
        match r {
            Some(cr) => cache_get_spec(
                old(table)@,
                media_key(media_type@, trakt_id as int),
                STALE_WHILE_REVALIDATE as int,
                now as int,
            ).result == Some((cr.data@, cr.is_stale)),
            None => cache_get_spec(
                old(table)@,
                media_key(media_type@, trakt_id as int),
                STALE_WHILE_REVALIDATE as int,
                now as int,
            ).result is None,
        },
{
    let key = make_media_key(media_type, trakt_id);
    table_get_with_expiry(table, key.as_str(), STALE_WHILE_REVALIDATE, now)
}

/// Writes a media-details row with the given time-to-live.
pub fn set_media_cache(
    table: &mut KvTable,
    media_type: &str,
    trakt_id: u32,
    data: String,
    ttl_ms: i64,
    now: i64,
)
    requires
        old(table).wf(),
        0 <= ttl_ms,
        now + ttl_ms <= i64::MAX,
    ensures
        final(table).wf(),
        final(table)@ == cache_put_spec(
            old(table)@,
            media_key(media_type@, trakt_id as int),
            data@,
            now as int,
            now + ttl_ms,
        ),
{
    let key = make_media_key(media_type, trakt_id);
    table.upsert(key.as_str(), data, now, now + ttl_ms);
}

/// The shared read path for tables with a hard expiry.
fn table_get_with_expiry(table: &mut KvTable, key: &str, stale_window: i64, now: i64) -> (r:
    Option<CacheResult>)
    requires
        old(table).wf(),
    ensures
        final(table).wf(),
        final(table)@ == cache_get_spec(
            old(table)@,
            key@,
            stale_window as int,
            now as int,
        ).table,
        match r {
            Some(cr) => cache_get_spec(old(table)@, key@, stale_window as int, now as int).result
                == Some((cr.data@, cr.is_stale)),
            None => cache_get_spec(old(table)@, key@, stale_window as int, now as int).result
                is None,
        },
{
    let found: Option<(String, i64, i64)> = match table.get(key) {
        Some(row) => Some((row.payload.clone(), row.updated_at, row.expires_at)),
        None => None,
    };
    match found {
        Some((payload, updated_at, expires_at)) => {
            if now > expires_at {
                table.delete(key);
                None
            } else {
                let is_stale = (updated_at as i128) + (stale_window as i128) < (now as i128);
                Some(CacheResult { data: payload, is_stale })
            }
        }
        None => None,
    }
}


/// The read policy for a table without a hard expiry (user data): rows are
/// never evicted, only classified against the staleness window.
pub open spec fn user_get_spec(m: Map<Seq<char>, RowView>, k: Seq<char>, now: int) -> Option<
    (Seq<char>, bool),
> {
    if m.contains_key(k) {
        Some((m[k].payload, m[k].updated_at + STALE_WHILE_REVALIDATE_USER < now))
    } else {
        None
    }
}

/// Reads a user-data row. User data has no hard expiry: a stored row is
/// always returned, flagged stale once it is older than the user-data
/// staleness window.
pub fn get_user_data_cache(table: &KvTable, key: &str, now: i64) -> (r: Option<CacheResult>)
    requires
        table.wf(),
    ensures
        match r {
            Some(cr) => user_get_spec(table@, key@, now as int) == Some((cr.data@, cr.is_stale)),
            None => user_get_spec(table@, key@, now as int) is None,
        },
{
    match table.get(key) {
        Some(row) => {
            let is_stale = (row.updated_at as i128) + (STALE_WHILE_REVALIDATE_USER as i128) < (
            now as i128);
            Some(CacheResult { data: row.payload.clone(), is_stale })
        }
        None => None,
    }
}

/// Writes a user-data row. No hard expiry is enforced for user data, so the
/// row is stored with the latest representable expiry.
pub fn set_user_data_cache(table: &mut KvTable, key: &str, data: String, now: i64)
    requires
        old(table).wf(),
    ensures
        final(table).wf(),
        final(table)@ == cache_put_spec(old(table)@, key@, data@, now as int, i64::MAX as int),
{
    table.upsert(key, data, now, i64::MAX);
}

/// Reads a list/API-response row. These rows have a hard expiry but no
/// staleness split: a hit is always served as-is, an expired row is evicted.
pub fn get_api_response_cache(table: &mut KvTable, key: &str, now: i64) -> (r: Option<String>)
    requires
        old(table).wf(),
    ensures
        final(table).wf(),
        final(table)@ == cache_get_spec(old(table)@, key@, 0, now as int).table,
        match r {
            Some(data) => cache_get_spec(old(table)@, key@, 0, now as int).result matches Some(p)
                && p.0 == data@,
            None => cache_get_spec(old(table)@, key@, 0, now as int).result is None,
        },
{
    match table_get_with_expiry(table, key, 0, now) {
        Some(cr) => Some(cr.data),
        None => None,
    }
}

/// Writes a list/API-response row with the list-response time-to-live.
pub fn set_api_response_cache(table: &mut KvTable, key: &str, data: String, now: i64)
    requires
        old(table).wf(),
        now + CACHE_TTL_API <= i64::MAX,
    ensures
        final(table).wf(),
        final(table)@ == cache_put_spec(
            old(table)@,
            key@,
            data@,
            now as int,
            now + CACHE_TTL_API,
        ),
{
    table.upsert(key, data, now, now + CACHE_TTL_API);
}

/// Reads a configuration value. Configuration rows never expire.
pub fn get_config(table: &KvTable, key: &str) -> (r: Option<String>)
    requires
        table.wf(),
    ensures
        match r {
            Some(v) => table@.contains_key(key@) && table@[key@].payload == v@,
            None => !table@.contains_key(key@),
        },
{
    match table.get(key) {
        Some(row) => Some(row.payload.clone()),
        None => None,
    }
}

/// Writes a configuration value.
pub fn set_config(table: &mut KvTable, key: &str, value: String, now: i64)
    requires
        old(table).wf(),
    ensures
        final(table).wf(),
        final(table)@ == cache_put_spec(old(table)@, key@, value@, now as int, i64::MAX as int),
{
    table.upsert(key, value, now, i64::MAX);
}

/// Removes a configuration value.
pub fn delete_config(table: &mut KvTable, key: &str)
    requires
        old(table).wf(),
    ensures
        final(table).wf(),
        final(table)@ == old(table)@.remove(key@),
{
    table.delete(key);
}

/// Freshness monotonicity: a row the read policy classifies fresh at one time
/// is never classified absent at any later time up to its hard expiry; it can
/// only move from fresh to stale.
pub proof fn lemma_freshness_monotonic(
    m: Map<Seq<char>, RowView>,
    k: Seq<char>,
    w: int,
    t1: int,
    t2: int,
)
    requires
        cache_get_spec(m, k, w, t1).result matches Some(p) && !p.1,
        t1 <= t2 <= m[k].expires_at,
    ensures
        cache_get_spec(m, k, w, t2).result is Some,
        cache_get_spec(m, k, w, t2).table == m,
        ({
            let r1 = cache_get_spec(m, k, w, t1).result.unwrap();
            let r2 = cache_get_spec(m, k, w, t2).result.unwrap();
            r1.0 == r2.0
        }),
{
}

/// Expiry absoluteness: once the current time passes a row's hard expiry, the
/// read policy reports it absent and removes it, and a second read behaves
/// identically on the resulting table.
pub proof fn lemma_expiry_absolute(m: Map<Seq<char>, RowView>, k: Seq<char>, w: int, now: int)
    requires
        m.contains_key(k),
        now > m[k].expires_at,
    ensures
        cache_get_spec(m, k, w, now).result is None,
        cache_get_spec(m, k, w, now).table == m.remove(k),
        cache_get_spec(m.remove(k), k, w, now).result is None,
        cache_get_spec(m.remove(k), k, w, now).table == m.remove(k),
{
}

/// Last write wins: after two writes to the same key, the table holds exactly
/// the row of the later write, and no key other than the written one is
/// touched.
pub proof fn lemma_last_write_wins(
    m: Map<Seq<char>, RowView>,
    k: Seq<char>,
    p1: Seq<char>,
    t1: int,
    e1: int,
    p2: Seq<char>,
    t2: int,
    e2: int,
)
    ensures
        ({
            let after = cache_put_spec(cache_put_spec(m, k, p1, t1, e1), k, p2, t2, e2);
            &&& after.contains_key(k)
            &&& after[k] == RowView { payload: p2, updated_at: t2, expires_at: e2 }
            &&& after.dom() == m.dom().insert(k)
            &&& forall|j: Seq<char>| j != k && m.contains_key(j) ==> after[j] == m[j]
        }),
{
    let after = cache_put_spec(cache_put_spec(m, k, p1, t1, e1), k, p2, t2, e2);
    assert(after.dom() =~= m.dom().insert(k));
}

/// What a read-path caller does with one probe: serve a fresh hit as is,
/// serve a stale hit and refresh it in the background, or fetch upstream on
/// a miss. A stored payload the caller could not decode counts as a miss
/// and is re-fetched.
#[derive(Clone, Copy, PartialEq, Eq, Structural, Debug)]
pub enum SwrAction {
    UseFresh,
    UseStaleAndRevalidate,
    FetchMiss,
}

/// Decides the stale-while-revalidate action for one probe.
pub fn swr_action(probe: &Option<CacheResult>, decoded_ok: bool) -> (r: SwrAction)
    ensures
        r == (match *probe {
            Some(ref cr) => if !decoded_ok {
                SwrAction::FetchMiss
            } else if cr.is_stale {
                SwrAction::UseStaleAndRevalidate
            } else {
                SwrAction::UseFresh
            },
            None => SwrAction::FetchMiss,
        }),
{
    match probe {
        Some(cr) => {
            if !decoded_ok {
                SwrAction::FetchMiss
            } else if cr.is_stale {
                SwrAction::UseStaleAndRevalidate
            } else {
                SwrAction::UseFresh
            }
        }
        None => SwrAction::FetchMiss,
    }
}

} // verus!
