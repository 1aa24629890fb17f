//! Translations: the cached item, the selection of a preferred translation,
//! and the serialized form of a stored translation row.

use vstd::prelude::*;
use vstd::string::*;
use crate::model::{MovieTranslation, SeasonTranslation, ShowTranslation};
use crate::strutil::{append_json_opt_string, append_u64, spec_dec, spec_json_opt_string};
use crate::time::get_current_time_ms;
use crate::cache::{cache_get_spec, cache_put_spec, CACHE_TTL_TRANSLATION, make_media_key, media_key};
use crate::store::{KvTable, RowView};

verus! {

/// The translated fields of one media entry, stamped with the time they were
/// produced.
#[derive(Clone, Debug)]
pub struct TranslationData {
    pub title: Option<String>,
    pub overview: Option<String>,
    pub tagline: Option<String>,
    pub updated_at: u64,
}

/// The mathematical content of a translation.
pub ghost struct TranslationDataView {
    pub title: Option<Seq<char>>,
    pub overview: Option<Seq<char>>,
    pub tagline: Option<Seq<char>>,
    pub updated_at: int,
}

impl View for TranslationData {
    type V = TranslationDataView;

    open spec fn view(&self) -> TranslationDataView {
        TranslationDataView {
            title: match self.title {
                Some(ref t) => Some(t@),
                None => None,
            },
            overview: match self.overview {
                Some(ref t) => Some(t@),
                None => None,
            },
            tagline: match self.tagline {
                Some(ref t) => Some(t@),
                None => None,
            },
            updated_at: self.updated_at as int,
        }
    }
}

/// One entry of the translation cache: the data (or a confirmed absence of a
/// translation) with its write time and hard expiry, in milliseconds.
#[derive(Clone, Debug)]
pub struct TranslationCacheItem {
    pub data: Option<TranslationData>,
    pub updated_at: u64,
    pub expires_at: u64,
}

impl TranslationCacheItem {
    /// A fresh cache entry, stamped with the current time and expiring after
    /// the given duration (capped at the largest representable time).
    pub fn new(data: Option<TranslationData>, cache_duration_ms: u64) -> (r: TranslationCacheItem)
        ensures
            (match (r.data, data) {
                (Some(a), Some(b)) => a@ == b@,
                (None, None) => true,
                _ => false,
            }),
            r.updated_at <= r.expires_at,
            r.expires_at - r.updated_at <= cache_duration_ms,
            r.updated_at + cache_duration_ms <= u64::MAX ==> r.expires_at == r.updated_at
                + cache_duration_ms,
    {
        let now = get_current_time_ms();
        let expires_at = if now <= u64::MAX - cache_duration_ms {
            now + cache_duration_ms
        } else {
            u64::MAX
        };
        TranslationCacheItem { data, updated_at: now, expires_at }
    }

    /// Whether the entry is expired at the given time.
    pub fn is_expired_at(&self, now_ms: u64) -> (r: bool)
        ensures
            r == (now_ms > self.expires_at),
    {
        now_ms > self.expires_at
    }

    /// Whether the entry is expired now. Reads the clock; the classification
    /// itself is `is_expired_at`.
    pub fn is_expired(&self) -> bool {
        self.is_expired_at(get_current_time_ms())
    }
}

/// The fields of a translation that the selection inspects, shared by the
/// movie, show and season shapes.
pub ghost struct TransFields {
    pub title: Option<Seq<char>>,
    pub overview: Option<Seq<char>>,
    pub tagline: Option<Seq<char>>,
    pub country: Option<Seq<char>>,
}

pub open spec fn movie_trans_fields(t: MovieTranslation) -> TransFields {
    TransFields {
        title: match t.title {
            Some(s) => Some(s@),
            None => None,
        },
        overview: match t.overview {
            Some(s) => Some(s@),
            None => None,
        },
        tagline: match t.tagline {
            Some(s) => Some(s@),
            None => None,
        },
        country: match t.country {
            Some(s) => Some(s@),
            None => None,
        },
    }
}

pub open spec fn show_trans_fields(t: ShowTranslation) -> TransFields {
    TransFields {
        title: match t.title {
            Some(s) => Some(s@),
            None => None,
        },
        overview: match t.overview {
            Some(s) => Some(s@),
            None => None,
        },
        tagline: match t.tagline {
            Some(s) => Some(s@),
            None => None,
        },
        country: match t.country {
            Some(s) => Some(s@),
            None => None,
        },
    }
}

pub open spec fn season_trans_fields(t: SeasonTranslation) -> TransFields {
    TransFields {
        title: match t.title {
            Some(s) => Some(s@),
            None => None,
        },
        overview: match t.overview {
            Some(s) => Some(s@),
            None => None,
        },
        tagline: None,
        country: match t.country {
            Some(s) => Some(s@),
            None => None,
        },
    }
}

/// The position of the first translation for a country, searching from `i`.
pub open spec fn first_country_from(s: Seq<TransFields>, c: Seq<char>, i: int) -> Option<int>
    decreases s.len() - i,
{
    if i < 0 || i >= s.len() {
        None
    } else if s[i].country == Some(c) {
        Some(i)
    } else {
        first_country_from(s, c, i + 1)
    }
}

/// The translation the selection prefers: simplified Chinese first, then the
/// traditional variants, then whatever came first.
pub open spec fn preferred_index(s: Seq<TransFields>) -> Option<int> {
    if s.len() == 0 {
        None
    } else if first_country_from(s, "cn"@, 0) is Some {
        first_country_from(s, "cn"@, 0)
    } else if first_country_from(s, "tw"@, 0) is Some {
        first_country_from(s, "tw"@, 0)
    } else if first_country_from(s, "hk"@, 0) is Some {
        first_country_from(s, "hk"@, 0)
    } else {
        Some(0)
    }
}

/// What the selection produces: the preferred translation's fields, stamped
/// with the given time; nothing when there are no translations at all.
pub open spec fn selected_translation(s: Seq<TransFields>, now: int) -> Option<
    TranslationDataView,
> {
    match preferred_index(s) {
        Some(i) => Some(
            TranslationDataView {
                title: s[i].title,
                overview: s[i].overview,
                tagline: s[i].tagline,
                updated_at: now,
            },
        ),
        None => None,
    }
}

fn clone_opt_string(o: &Option<String>) -> (r: Option<String>)
    ensures
        (match (r, o) {
            (Some(a), Some(b)) => a@ == b@,
            (None, None) => true,
            _ => false,
        }),
{
    match o {
        Some(x) => Some(x.clone()),
        None => None,
    }
}

fn find_country_movie(ts: &Vec<MovieTranslation>, c: &str) -> (r: Option<usize>)
    ensures
        (match r {
            Some(i) => i < ts@.len() && first_country_from(
                ts@.map_values(|t: MovieTranslation| movie_trans_fields(t)),
                c@,
                0,
            ) == Some(i as int),
            None => first_country_from(
                ts@.map_values(|t: MovieTranslation| movie_trans_fields(t)),
                c@,
                0,
            ) is None,
        }),
{
    let ghost fv = ts@.map_values(|t: MovieTranslation| movie_trans_fields(t));
    let owned: String = c.to_owned();
    let n = ts.len();
    let mut i: usize = 0;
    while i < n
        invariant
            i <= n,
            n == ts@.len(),
            owned@ == c@,
            fv == ts@.map_values(|t: MovieTranslation| movie_trans_fields(t)),
            first_country_from(fv, c@, 0) == first_country_from(fv, c@, i as int),
        decreases n - i,
    {
        let matched = match &ts[i].country {
            Some(cc) => *cc == owned,
            None => false,
        };
        proof {
            assert(matched == (fv[i as int].country == Some(c@)));
        }
        if matched {
            return Some(i);
        }
        i += 1;
    }
    None
}

fn find_country_show(ts: &Vec<ShowTranslation>, c: &str) -> (r: Option<usize>)
    ensures
        (match r {
            Some(i) => i < ts@.len() && first_country_from(
                ts@.map_values(|t: ShowTranslation| show_trans_fields(t)),
                c@,
                0,
            ) == Some(i as int),
            None => first_country_from(
                ts@.map_values(|t: ShowTranslation| show_trans_fields(t)),
                c@,
                0,
            ) is None,
        }),
{
    let ghost fv = ts@.map_values(|t: ShowTranslation| show_trans_fields(t));
    let owned: String = c.to_owned();
    let n = ts.len();
    let mut i: usize = 0;
    while i < n
        invariant
            i <= n,
            n == ts@.len(),
            owned@ == c@,
            fv == ts@.map_values(|t: ShowTranslation| show_trans_fields(t)),
            first_country_from(fv, c@, 0) == first_country_from(fv, c@, i as int),
        decreases n - i,
    {
        let matched = match &ts[i].country {
            Some(cc) => *cc == owned,
            None => false,
        };
        proof {
            assert(matched == (fv[i as int].country == Some(c@)));
        }
        if matched {
            return Some(i);
        }
        i += 1;
    }
    None
}

fn find_country_season(ts: &Vec<SeasonTranslation>, c: &str) -> (r: Option<usize>)
    ensures
        (match r {
            Some(i) => i < ts@.len() && first_country_from(
                ts@.map_values(|t: SeasonTranslation| season_trans_fields(t)),
                c@,
                0,
            ) == Some(i as int),
            None => first_country_from(
                ts@.map_values(|t: SeasonTranslation| season_trans_fields(t)),
                c@,
                0,
            ) is None,
        }),
{
    let ghost fv = ts@.map_values(|t: SeasonTranslation| season_trans_fields(t));
    let owned: String = c.to_owned();
    let n = ts.len();
    let mut i: usize = 0;
    while i < n
        invariant
            i <= n,
            n == ts@.len(),
            owned@ == c@,
            fv == ts@.map_values(|t: SeasonTranslation| season_trans_fields(t)),
            first_country_from(fv, c@, 0) == first_country_from(fv, c@, i as int),
        decreases n - i,
    {
        let matched = match &ts[i].country {
            Some(cc) => *cc == owned,
            None => false,
        };
        proof {
            assert(matched == (fv[i as int].country == Some(c@)));
        }
        if matched {
            return Some(i);
        }
        i += 1;
    }
    None
}

/// Selects the preferred translation of a movie, stamped with the given
/// time.
pub fn process_movie_translations(translations: &Vec<MovieTranslation>, now: u64) -> (r: Option<
    TranslationData,
>)
    ensures
        (match r {
            Some(td) => selected_translation(
                translations@.map_values(|t: MovieTranslation| movie_trans_fields(t)),
                now as int,
            ) == Some(td@),
            None => selected_translation(
                translations@.map_values(|t: MovieTranslation| movie_trans_fields(t)),
                now as int,
            ) is None,
        }),
{
    if translations.len() == 0 {
        return None;
    }
    let idx: usize = match find_country_movie(translations, "cn") {
        Some(i) => i,
        None => match find_country_movie(translations, "tw") {
            Some(i) => i,
            None => match find_country_movie(translations, "hk") {
                Some(i) => i,
                None => 0,
            },
        },
    };
    let t = &translations[idx];
    Some(
        TranslationData {
            title: clone_opt_string(&t.title),
            overview: clone_opt_string(&t.overview),
            tagline: clone_opt_string(&t.tagline),
            updated_at: now,
        },
    )
}

/// Selects the preferred translation of a show, stamped with the given time.
pub fn process_show_translations(translations: &Vec<ShowTranslation>, now: u64) -> (r: Option<
    TranslationData,
>)
    ensures
        (match r {
            Some(td) => selected_translation(
                translations@.map_values(|t: ShowTranslation| show_trans_fields(t)),
                now as int,
            ) == Some(td@),
            None => selected_translation(
                translations@.map_values(|t: ShowTranslation| show_trans_fields(t)),
                now as int,
            ) is None,
        }),
{
    if translations.len() == 0 {
        return None;
    }
    let idx: usize = match find_country_show(translations, "cn") {
        Some(i) => i,
        None => match find_country_show(translations, "tw") {
            Some(i) => i,
            None => match find_country_show(translations, "hk") {
                Some(i) => i,
                None => 0,
            },
        },
    };
    let t = &translations[idx];
    Some(
        TranslationData {
            title: clone_opt_string(&t.title),
            overview: clone_opt_string(&t.overview),
            tagline: clone_opt_string(&t.tagline),
            updated_at: now,
        },
    )
}

/// Selects the preferred translation of a season, stamped with the given
/// time. Seasons carry no tagline.
pub fn process_season_translations(translations: &Vec<SeasonTranslation>, now: u64) -> (r: Option<
    TranslationData,
>)
    ensures
        (match r {
            Some(td) => selected_translation(
                translations@.map_values(|t: SeasonTranslation| season_trans_fields(t)),
                now as int,
            ) == Some(td@),
            None => selected_translation(
                translations@.map_values(|t: SeasonTranslation| season_trans_fields(t)),
                now as int,
            ) is None,
        }),
{
    if translations.len() == 0 {
        return None;
    }
    let idx: usize = match find_country_season(translations, "cn") {
        Some(i) => i,
        None => match find_country_season(translations, "tw") {
            Some(i) => i,
            None => match find_country_season(translations, "hk") {
                Some(i) => i,
                None => 0,
            },
        },
    };
    let t = &translations[idx];
    Some(
        TranslationData {
            title: clone_opt_string(&t.title),
            overview: clone_opt_string(&t.overview),
            tagline: None,
            updated_at: now,
        },
    )
}


/// The serialized form of one stored translation row: its three translated
/// fields and the write time.
pub open spec fn trans_row_json(
    title: Option<Seq<char>>,
    overview: Option<Seq<char>>,
    tagline: Option<Seq<char>>,
    updated_at: int,
) -> Seq<char> {
    "{\"title\":"@ + spec_json_opt_string(title) + ",\"overview\":"@ + spec_json_opt_string(
        overview,
    ) + ",\"tagline\":"@ + spec_json_opt_string(tagline) + ",\"updated_at\":"@ + spec_dec(
        updated_at,
    ) + "}"@
}

/// Writes a translation row under `{type}_{id}`, serialized with the write
/// time and expiring after the translation time-to-live.
pub fn set_translation_cache(
    table: &mut KvTable,
    media_type: &str,
    id: u32,
    title: &Option<String>,
    overview: &Option<String>,
    tagline: &Option<String>,
    now: i64,
)
    requires
        old(table).wf(),
        now >= 0,
        now + CACHE_TTL_TRANSLATION <= i64::MAX,
    ensures
        final(table).wf(),
        final(table)@ == cache_put_spec(
            old(table)@,
            media_key(media_type@, id as int),
            trans_row_json(
                match *title {
                    Some(ref s) => Some(s@),
                    None => None,
                },
                match *overview {
                    Some(ref s) => Some(s@),
                    None => None,
                },
                match *tagline {
                    Some(ref s) => Some(s@),
                    None => None,
                },
                now as int,
            ),
            now as int,
            now + CACHE_TTL_TRANSLATION,
        ),
{
    let key = make_media_key(media_type, id);
    let mut payload: String = "{\"title\":".to_owned();
    append_json_opt_string(&mut payload, title);
    payload.append(",\"overview\":");
    append_json_opt_string(&mut payload, overview);
    payload.append(",\"tagline\":");
    append_json_opt_string(&mut payload, tagline);
    payload.append(",\"updated_at\":");
    append_u64(&mut payload, now as u64);
    payload.append("}");
    proof {
        assert(payload@ =~= trans_row_json(
            match *title {
                Some(ref s) => Some(s@),
                None => None,
            },
            match *overview {
                Some(ref s) => Some(s@),
                None => None,
            },
            match *tagline {
                Some(ref s) => Some(s@),
                None => None,
            },
            now as int,
        ));
    }
    table.upsert(key.as_str(), payload, now, now + CACHE_TTL_TRANSLATION);
}

/// Reads a translation row under `{type}_{id}`: an expired row is evicted
/// and reported absent, anything else is returned as stored.
pub fn get_translation_cache(table: &mut KvTable, media_type: &str, id: u32, now: i64) -> (r:
    Option<String>)
    requires
        old(table).wf(),
    ensures
        final(table).wf(),
        final(table)@ == cache_get_spec(
            old(table)@,
            media_key(media_type@, id as int),
            0,
            now as int,
        ).table,
        (match r {
            Some(data) => cache_get_spec(
                old(table)@,
                media_key(media_type@, id as int),
                0,
                now as int,
            ).result matches Some(p) && p.0 == data@,
            None => cache_get_spec(
                old(table)@,
                media_key(media_type@, id as int),
                0,
                now as int,
            ).result is None,
        }),
{
    let key = make_media_key(media_type, id);
    let probe: Option<(String, i64)> = match table.get(key.as_str()) {
        Some(row) => Some((row.payload.clone(), row.expires_at)),
        None => None,
    };
    match probe {
        Some((payload, expires_at)) => {
            if now > expires_at {
                table.delete(key.as_str());
                None
            } else {
                Some(payload)
            }
        }
        None => None,
    }
}

/// The keys whose rows are expired at the given time.
pub open spec fn expired_keys(m: Map<Seq<char>, RowView>, now: int) -> Set<Seq<char>> {
    m.dom().filter(|k: Seq<char>| now > m[k].expires_at)
}

/// Deletes every expired translation row and reports how many were removed.
pub fn clear_expired_translations(table: &mut KvTable, now: i64) -> (count: u32)
    requires
        old(table).wf(),
        old(table)@.dom().len() <= u32::MAX,
    ensures
        final(table).wf(),
        final(table)@ == old(table)@.remove_keys(expired_keys(old(table)@, now as int)),
        count as int == expired_keys(old(table)@, now as int).len(),
{
    proof {
        table.lemma_dom_finite();
    }
    let ks = table.keys();
    let ghost m0 = table@;
    let ghost kv = ks@.map_values(|k: String| k@);
    proof {
        assert forall|k: Seq<char>| m0.contains_key(k) implies exists|j: int|
            0 <= j < kv.len() && #[trigger] kv[j] == k by {
            let j = choose|j: int| 0 <= j < ks@.len() && #[trigger] ks@[j]@ == k;
            assert(kv[j] == k);
        }
    }
    let n = ks.len();
    let mut count: u32 = 0;
    let ghost mut e = Set::<Seq<char>>::empty();
    let mut i: usize = 0;
    while i < n
        invariant
            i <= n,
            n == ks@.len(),
            kv == ks@.map_values(|k: String| k@),
            kv.no_duplicates(),
            forall|j: int| 0 <= j < n ==> m0.contains_key(#[trigger] kv[j]),
            forall|k: Seq<char>|
                m0.contains_key(k) ==> exists|j: int| 0 <= j < n && #[trigger] kv[j] == k,
            table.wf(),
            e.finite(),
            e.len() == count,
            count <= u32::MAX,
            e.len() <= m0.dom().len(),
            m0.dom().finite(),
            m0.dom().len() <= u32::MAX,
            forall|k: Seq<char>|
                #[trigger] e.contains(k) <==> exists|j: int|
                    0 <= j < i && #[trigger] kv[j] == k && now > m0[k].expires_at,
            table@ == m0.remove_keys(e),
        decreases n - i,
    {
        let probe: Option<i64> = match table.get(ks[i].as_str()) {
            Some(row) => Some(row.expires_at),
            None => None,
        };
        proof {
            assert(kv[i as int] == ks@[i as int]@);
            assert(!e.contains(kv[i as int])) by {
                let ki = kv[i as int];
                if e.contains(ki) {
                    let j = choose|j: int|
                        0 <= j < i && #[trigger] kv[j] == ki && now > m0[ki].expires_at;
                    assert(kv[j] == ki);
                }
            }
            assert(table@.contains_key(kv[i as int]));
            assert(table@[kv[i as int]] == m0[kv[i as int]]);
        }
        match probe {
            Some(expires_at) => {
                if now > expires_at {
                    table.delete(ks[i].as_str());
                    proof {
                        let k = kv[i as int];
                        vstd::set_lib::lemma_len_subset(e.insert(k), m0.dom());
                        e = e.insert(k);
                        assert(e.len() == count + 1);
                        assert(table@ =~= m0.remove_keys(e));
                    }
                    count = count + 1;
                } else {
                    proof {
                        let k = kv[i as int];
                        assert forall|kk: Seq<char>| #[trigger] e.contains(kk) implies exists|
                            j: int,
                        |
                            0 <= j < i + 1 && #[trigger] kv[j] == kk && now > m0[kk].expires_at by {}
                        assert forall|kk: Seq<char>|
                            (exists|j: int|
                                0 <= j < i + 1 && #[trigger] kv[j] == kk && now
                                    > m0[kk].expires_at) implies e.contains(kk) by {
                            let j = choose|j: int|
                                0 <= j < i + 1 && #[trigger] kv[j] == kk && now
                                    > m0[kk].expires_at;
                            assert(j < i);
                        }
                    }
                }
            }
            None => {
                proof {
                    assert(false);
                }
            }
        }
        i += 1;
    }
    proof {
        assert(e =~= expired_keys(m0, now as int)) by {
            assert forall|k: Seq<char>| #[trigger] e.contains(k) implies expired_keys(
                m0,
                now as int,
            ).contains(k) by {}
            assert forall|k: Seq<char>| expired_keys(m0, now as int).contains(k) implies e.contains(
                k,
            ) by {
                let j = choose|j: int| 0 <= j < n && #[trigger] kv[j] == k;
                assert(kv[j] == k && now > m0[k].expires_at);
            }
        }
    }
    count
}

/// Counts the translation rows and how many of them are expired, without
/// changing anything.
pub fn get_translation_cache_stats(table: &KvTable, now: i64) -> (r: (u32, u32))
    requires
        table.wf(),
        table@.dom().len() <= u32::MAX,
    ensures
        r.0 as int == table@.dom().len(),
        r.1 as int == expired_keys(table@, now as int).len(),
{
    proof {
        table.lemma_dom_finite();
    }
    let ks = table.keys();
    let ghost m0 = table@;
    let ghost kv = ks@.map_values(|k: String| k@);
    proof {
        assert forall|k: Seq<char>| m0.contains_key(k) implies exists|j: int|
            0 <= j < kv.len() && #[trigger] kv[j] == k by {
            let j = choose|j: int| 0 <= j < ks@.len() && #[trigger] ks@[j]@ == k;
            assert(kv[j] == k);
        }
    }
    let n = ks.len();
    let mut expired: u32 = 0;
    let ghost mut e = Set::<Seq<char>>::empty();
    let mut i: usize = 0;
    while i < n
        invariant
            i <= n,
            n == ks@.len(),
            n as int == m0.dom().len(),
            m0 == table@,
            table.wf(),
            kv == ks@.map_values(|k: String| k@),
            kv.no_duplicates(),
            forall|j: int| 0 <= j < n ==> m0.contains_key(#[trigger] kv[j]),
            forall|k: Seq<char>|
                m0.contains_key(k) ==> exists|j: int| 0 <= j < n && #[trigger] kv[j] == k,
            e.finite(),
            e.len() == expired,
            m0.dom().finite(),
            m0.dom().len() <= u32::MAX,
            forall|k: Seq<char>|
                #[trigger] e.contains(k) <==> exists|j: int|
                    0 <= j < i && #[trigger] kv[j] == k && now > m0[k].expires_at,
        decreases n - i,
    {
        let is_expired = match table.get(ks[i].as_str()) {
            Some(row) => now > row.expires_at,
            None => false,
        };
        proof {
            assert(kv[i as int] == ks@[i as int]@);
            assert(m0.contains_key(kv[i as int]));
            assert(!e.contains(kv[i as int])) by {
                let ki = kv[i as int];
                if e.contains(ki) {
                    let j = choose|j: int|
                        0 <= j < i && #[trigger] kv[j] == ki && now > m0[ki].expires_at;
                    assert(kv[j] == ki);
                }
            }
        }
        if is_expired {
            proof {
                let k = kv[i as int];
                vstd::set_lib::lemma_len_subset(e.insert(k), m0.dom());
                e = e.insert(k);
            }
            expired = expired + 1;
        } else {
            proof {
                assert forall|kk: Seq<char>|
                    (exists|j: int| 0 <= j < i + 1 && #[trigger] kv[j] == kk && now
                        > m0[kk].expires_at) implies e.contains(kk) by {
                    let j = choose|j: int|
                        0 <= j < i + 1 && #[trigger] kv[j] == kk && now > m0[kk].expires_at;
                    assert(j < i);
                }
            }
        }
        i += 1;
    }
    let total: u32 = n as u32;
    proof {
        assert(e =~= expired_keys(m0, now as int)) by {
            assert forall|k: Seq<char>| expired_keys(m0, now as int).contains(k) implies e.contains(
                k,
            ) by {
                let j = choose|j: int| 0 <= j < n && #[trigger] kv[j] == k;
                assert(kv[j] == k && now > m0[k].expires_at);
            }
        }
    }
    (total, expired)
}

} // verus!
