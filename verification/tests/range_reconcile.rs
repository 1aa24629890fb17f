//! The date-range reconciler: run decomposition, per-day buckets, confirmed
//! empty days, and the date-ordered merge.

use mytv_core::cache::{get_user_data_cache, set_user_data_cache, CacheResult, STALE_WHILE_REVALIDATE_USER};
use mytv_core::calendar::{CalendarItemDate, CalendarMovie, CalendarShow};
use mytv_core::dates::{format_date, parse_date};
use mytv_core::model::{Episode, EpisodeIds, Images, Movie, MovieIds, Show, ShowIds};
use mytv_core::order::{sort_items_by_date, str_lex_leq};
use mytv_core::reconcile::{
    apply_fetched_run, collect_runs, day_state_of, make_user_key, plan_calendar_runs, probe_days,
    CalItem, DayState,
};
use mytv_core::store::KvTable;

fn item(date: &str, body: &str) -> CalItem {
    CalItem { date: Some(String::from(date)), body: String::from(body) }
}

#[test]
fn runs_of_example_range() {
    // Days one to three missing, day four cached fresh, days five to seven
    // missing: exactly two missing runs, one per maximal gap.
    let states = vec![
        DayState::Missing,
        DayState::Missing,
        DayState::Missing,
        DayState::Fresh,
        DayState::Missing,
        DayState::Missing,
        DayState::Missing,
    ];
    let runs = collect_runs(&states, DayState::Missing);
    assert_eq!(runs, vec![(0, 3), (4, 7)]);
}

#[test]
fn runs_split_by_every_other_state() {
    // A missing day breaks a stale run and a fresh day breaks both kinds.
    let states = vec![
        DayState::Stale,
        DayState::Missing,
        DayState::Stale,
        DayState::Fresh,
        DayState::Stale,
    ];
    let (missing, stale) = plan_calendar_runs(&states);
    assert_eq!(missing, vec![(1, 2)]);
    assert_eq!(stale, vec![(0, 1), (2, 3), (4, 5)]);
}

#[test]
fn runs_of_uniform_and_empty_ranges() {
    let all = vec![DayState::Missing, DayState::Missing];
    assert_eq!(collect_runs(&all, DayState::Missing), vec![(0, 2)]);
    assert_eq!(collect_runs(&all, DayState::Stale), vec![]);
    let none: Vec<DayState> = vec![];
    assert_eq!(collect_runs(&none, DayState::Missing), vec![]);
}

#[test]
fn day_state_classification() {
    assert_eq!(day_state_of(&None, true), DayState::Missing);
    let fresh = Some(CacheResult { data: String::from("[]"), is_stale: false });
    assert_eq!(day_state_of(&fresh, true), DayState::Fresh);
    let stale = Some(CacheResult { data: String::from("[]"), is_stale: true });
    assert_eq!(day_state_of(&stale, true), DayState::Stale);
    assert_eq!(day_state_of(&fresh, false), DayState::Missing);
}

#[test]
fn apply_run_buckets_items_by_day() {
    let mut t = KvTable::new();
    let dates = vec![
        String::from("2024-01-01"),
        String::from("2024-01-02"),
        String::from("2024-01-03"),
    ];
    let items = vec![
        item("2024-01-01", "{\"n\":1}"),
        item("2024-01-03", "{\"n\":3}"),
        item("2024-01-01", "{\"n\":4}"),
        item("2024-02-09", "{\"n\":9}"),
    ];
    apply_fetched_run(&mut t, "calendar_movies", &dates, &items, 1_000);
    let day1 = get_user_data_cache(&t, "calendar_movies_2024-01-01", 1_001).unwrap();
    assert_eq!(day1.data, "[{\"n\":1},{\"n\":4}]");
    assert!(!day1.is_stale);
    let day3 = get_user_data_cache(&t, "calendar_movies_2024-01-03", 1_001).unwrap();
    assert_eq!(day3.data, "[{\"n\":3}]");
    // The out-of-range item is not cached under any requested day.
    assert!(get_user_data_cache(&t, "calendar_movies_2024-02-09", 1_001).is_none());
}

#[test]
fn empty_day_is_confirmed_not_missing() {
    // A three-day fetch with nothing on the middle day stores that day as the
    // confirmed empty list, so a later read is a fresh hit, not a miss.
    let mut t = KvTable::new();
    let dates = vec![
        String::from("2024-01-01"),
        String::from("2024-01-02"),
        String::from("2024-01-03"),
    ];
    let items = vec![item("2024-01-01", "{\"n\":1}"), item("2024-01-03", "{\"n\":3}")];
    apply_fetched_run(&mut t, "calendar_shows", &dates, &items, 1_000);
    let day2 = get_user_data_cache(&t, "calendar_shows_2024-01-02", 1_001).expect("confirmed");
    assert_eq!(day2.data, "[]");
    assert!(!day2.is_stale);
    let parsed: Vec<serde_json::Value> = serde_json::from_str(&day2.data).unwrap();
    assert!(parsed.is_empty());
}

#[test]
fn probe_days_reports_each_day() {
    let mut t = KvTable::new();
    let dates = vec![String::from("2024-01-01"), String::from("2024-01-02")];
    apply_fetched_run(&mut t, "cal", &vec![String::from("2024-01-01")], &vec![], 0);
    let probes = probe_days(&t, "cal", &dates, 1);
    assert_eq!(probes.len(), 2);
    assert!(probes[0].is_some());
    assert!(probes[1].is_none());
}

#[test]
fn merged_result_sorted_with_ties_in_fetch_order() {
    let items = vec![
        item("2024-01-03", "c"),
        item("2024-01-01", "a1"),
        item("2024-01-02", "b"),
        item("2024-01-01", "a2"),
    ];
    let sorted = sort_items_by_date(&items);
    let keys: Vec<&str> = sorted.iter().map(|i| i.body.as_str()).collect();
    assert_eq!(keys, vec!["a1", "a2", "b", "c"]);
}

#[test]
fn merge_keeps_every_item_exactly_once() {
    let items = vec![
        item("2024-01-02", "x"),
        item("2024-01-01", "y"),
        item("2024-01-02", "x"),
    ];
    let sorted = sort_items_by_date(&items);
    assert_eq!(sorted.len(), 3);
    let bodies: Vec<&str> = sorted.iter().map(|i| i.body.as_str()).collect();
    assert_eq!(bodies, vec!["y", "x", "x"]);
}

#[test]
fn undated_items_sort_first() {
    let items = vec![item("2024-01-01", "dated"), CalItem { date: None, body: String::from(
        "undated",
    ) }];
    let sorted = sort_items_by_date(&items);
    assert_eq!(sorted[0].body, "undated");
    assert_eq!(sorted[1].body, "dated");
}

#[test]
fn lexicographic_comparison() {
    assert!(str_lex_leq("", "a"));
    assert!(str_lex_leq("2024-01-01", "2024-01-02"));
    assert!(!str_lex_leq("2024-02-01", "2024-01-31"));
    assert!(str_lex_leq("abc", "abc"));
    assert!(str_lex_leq("ab", "abc"));
}

#[test]
fn date_parse_format_roundtrip() {
    let d = parse_date("2024-01-31").expect("valid date");
    assert_eq!(format_date(d).unwrap(), "2024-01-31");
    // Day arithmetic crosses the month boundary correctly.
    assert_eq!(format_date(d + 1).unwrap(), "2024-02-01");
    // A leap day.
    let feb28 = parse_date("2024-02-28").unwrap();
    assert_eq!(format_date(feb28 + 1).unwrap(), "2024-02-29");
    assert_eq!(format_date(feb28 + 2).unwrap(), "2024-03-01");
    assert!(parse_date("not-a-date").is_none());
    assert!(parse_date("2024-13-01").is_none());
}

#[test]
fn user_keys_compose_prefix_and_date() {
    assert_eq!(make_user_key("calendar_movies", "2024-01-01"), "calendar_movies_2024-01-01");
}

fn sample_movie() -> Movie {
    Movie {
        title: String::from("m"),
        year: 2024,
        ids: MovieIds { trakt: 1, slug: String::from("m"), imdb: String::from("tt1"), tmdb: 2 },
        images: Images {
            poster: vec![],
            fanart: vec![],
            clearart: vec![],
            logo: vec![],
            banner: vec![],
            thumb: vec![],
        },
    }
}

fn sample_show() -> Show {
    Show {
        title: String::from("s"),
        year: 2024,
        ids: ShowIds {
            trakt: 1,
            slug: String::from("s"),
            tvdb: 2,
            imdb: String::from("tt2"),
            tmdb: 3,
            tvrage: None,
        },
        images: Images {
            poster: vec![],
            fanart: vec![],
            clearart: vec![],
            logo: vec![],
            banner: vec![],
            thumb: vec![],
        },
    }
}

#[test]
fn calendar_movie_date_is_release_date() {
    let cm = CalendarMovie { released: Some(String::from("2024-05-06")), movie: sample_movie() };
    assert_eq!(cm.get_date_str().unwrap(), "2024-05-06");
    let none = CalendarMovie { released: None, movie: sample_movie() };
    assert!(none.get_date_str().is_none());
}

#[test]
fn calendar_show_date_truncates_timestamp() {
    let cs = CalendarShow {
        first_aired: Some(String::from("2014-07-14T01:00:00.000Z")),
        episode: Some(Episode {
            season: 1,
            number: 2,
            title: None,
            ids: EpisodeIds { trakt: 5, tvdb: None, tmdb: None },
        }),
        show: sample_show(),
    };
    assert_eq!(cs.get_date_str().unwrap(), "2014-07-14");
    let short = CalendarShow {
        first_aired: Some(String::from("2014")),
        episode: None,
        show: sample_show(),
    };
    assert_eq!(short.get_date_str().unwrap(), "2014");
}

#[test]
fn full_reconciliation_of_partly_cached_week() {
    // Seven requested days with only the fourth cached fresh: the plan holds
    // exactly one fetch window per maximal gap, and after both windows are
    // applied every day of the week is present.
    let mut t = KvTable::new();
    let dates: Vec<String> = (1..=7).map(|d| format!("2024-03-0{}", d)).collect();
    let now = 1_000_000;
    set_user_data_cache(&mut t, "calendar_shows_2024-03-04", String::from("[]"), now);

    let probes = probe_days(&t, "calendar_shows", &dates, now);
    let states: Vec<DayState> = probes.iter().map(|p| day_state_of(p, p.is_some())).collect();
    let (missing, stale) = plan_calendar_runs(&states);
    assert_eq!(missing, vec![(0, 3), (4, 7)]);
    assert_eq!(stale, vec![]);

    for (a, b) in missing {
        let run_dates: Vec<String> = dates[a..b].to_vec();
        let fetched = vec![item(&run_dates[0], "{\"run\":1}")];
        apply_fetched_run(&mut t, "calendar_shows", &run_dates, &fetched, now);
    }
    let after = probe_days(&t, "calendar_shows", &dates, now);
    assert!(after.iter().all(|p| p.is_some()));
    // A day of the fetched run that returned nothing is a confirmed empty
    // day, still fresh within the staleness window.
    let day6 = get_user_data_cache(&t, "calendar_shows_2024-03-06", now
        + STALE_WHILE_REVALIDATE_USER).unwrap();
    assert_eq!(day6.data, "[]");
    assert!(!day6.is_stale);
}
