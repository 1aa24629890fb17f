//! The date-range reconciler.
//!
//! A request for `days` consecutive calendar days is answered from the cache
//! where possible. Each day is classified as fresh, stale or missing; maximal
//! contiguous runs of missing days are fetched upstream with one call per run,
//! and maximal contiguous runs of stale days are refreshed the same way in the
//! background. Fetched items are regrouped into per-day buckets — a day that
//! returned nothing is stored as a confirmed empty day — and everything is
//! merged into one result ordered by date.

use vstd::prelude::*;
use vstd::string::*;
use crate::cache::{CacheResult, get_user_data_cache, set_user_data_cache, cache_put_spec, user_get_spec, STALE_WHILE_REVALIDATE_USER};
use crate::store::{KvTable, RowView};

verus! {

/// The three-way classification of one day of the requested range.
#[derive(Clone, Copy, PartialEq, Eq, Structural, Debug)]
pub enum DayState {
    Missing,
    Stale,
    Fresh,
}

/// The end of the contiguous block of days in state `t` starting at `i`:
/// the first position at or after `i` whose state differs.
pub open spec fn block_end(s: Seq<DayState>, t: DayState, i: int) -> int
    decreases s.len() - i,
{
    if i < 0 || i >= s.len() || s[i] != t {
        i
    } else {
        block_end(s, t, i + 1)
    }
}

pub proof fn lemma_block_end_props(s: Seq<DayState>, t: DayState, i: int)
    requires
        0 <= i <= s.len(),
    ensures
        i <= block_end(s, t, i) <= s.len(),
        forall|k: int| i <= k < block_end(s, t, i) ==> s[k] == t,
        block_end(s, t, i) == s.len() || s[block_end(s, t, i)] != t,
    decreases s.len() - i,
{
    if i < s.len() && s[i] == t {
        lemma_block_end_props(s, t, i + 1);
    }
}

/// The maximal runs of state `t` at or after position `i`, as half-open
/// `(start, end)` index pairs in increasing order.
pub open spec fn spec_runs_from(s: Seq<DayState>, t: DayState, i: int) -> Seq<(int, int)>
    decreases s.len() - i,
    when 0 <= i
    via spec_runs_from_decreases
{
    if i >= s.len() {
        Seq::empty()
    } else if s[i] != t {
        spec_runs_from(s, t, i + 1)
    } else {
        seq![(i, block_end(s, t, i))] + spec_runs_from(s, t, block_end(s, t, i))
    }
}

#[via_fn]
proof fn spec_runs_from_decreases(s: Seq<DayState>, t: DayState, i: int) {
    if 0 <= i && i < s.len() && s[i] == t {
        lemma_block_end_props(s, t, i);
    }
}

/// The maximal runs of state `t` over the whole classification.
pub open spec fn spec_runs(s: Seq<DayState>, t: DayState) -> Seq<(int, int)> {
    spec_runs_from(s, t, 0)
}

/// Structural facts about the run decomposition: every run is a nonempty
/// maximal block of state `t`, runs come in increasing order without touching
/// each other, and they start at or after `i`.
pub proof fn lemma_runs_from_props(s: Seq<DayState>, t: DayState, i: int)
    requires
        0 <= i,
    ensures
        forall|j: int|
            0 <= j < spec_runs_from(s, t, i).len() ==> {
                let r = #[trigger] spec_runs_from(s, t, i)[j];
                &&& i <= r.0 < r.1 <= s.len()
                &&& forall|k: int| r.0 <= k < r.1 ==> s[k] == t
                &&& (r.1 == s.len() || s[r.1] != t)
                &&& (r.0 == i || r.0 == 0 || s[r.0 - 1] != t)
            },
        forall|j1: int, j2: int|
            0 <= j1 < j2 < spec_runs_from(s, t, i).len() ==> (#[trigger] spec_runs_from(
                s,
                t,
                i,
            )[j1]).1 < (#[trigger] spec_runs_from(s, t, i)[j2]).0,
    decreases s.len() - i,
{
    if i >= s.len() {
    } else if s[i] != t {
        lemma_runs_from_props(s, t, i + 1);
        assert forall|j: int| 0 <= j < spec_runs_from(s, t, i).len() implies {
            let r = #[trigger] spec_runs_from(s, t, i)[j];
            &&& i <= r.0 < r.1 <= s.len()
            &&& forall|k: int| r.0 <= k < r.1 ==> s[k] == t
            &&& (r.1 == s.len() || s[r.1] != t)
            &&& (r.0 == i || r.0 == 0 || s[r.0 - 1] != t)
        } by {
            let r = spec_runs_from(s, t, i)[j];
            assert(spec_runs_from(s, t, i) == spec_runs_from(s, t, i + 1));
            if r.0 == i + 1 {
                assert(s[r.0 - 1] != t);
            }
        }
    } else {
        lemma_block_end_props(s, t, i);
        let e = block_end(s, t, i);
        lemma_runs_from_props(s, t, e);
        let rest = spec_runs_from(s, t, e);
        assert forall|j: int| 0 <= j < spec_runs_from(s, t, i).len() implies {
            let r = #[trigger] spec_runs_from(s, t, i)[j];
            &&& i <= r.0 < r.1 <= s.len()
            &&& forall|k: int| r.0 <= k < r.1 ==> s[k] == t
            &&& (r.1 == s.len() || s[r.1] != t)
            &&& (r.0 == i || r.0 == 0 || s[r.0 - 1] != t)
        } by {
            let r = spec_runs_from(s, t, i)[j];
            if j == 0 {
                assert(r == (i, e));
            } else {
                assert(r == rest[j - 1]);
                // A run of the tail cannot start at the block's end, where the
                // state differs from `t`.
                if r.0 == e {
                    assert(s[r.0] == t);
                    assert(e == s.len() || s[e] != t);
                }
            }
        }
        assert forall|j1: int, j2: int|
            0 <= j1 < j2 < spec_runs_from(s, t, i).len() implies (#[trigger] spec_runs_from(
            s,
            t,
            i,
        )[j1]).1 < (#[trigger] spec_runs_from(s, t, i)[j2]).0 by {
            if j1 == 0 {
                let r2 = rest[j2 - 1];
                assert(e <= r2.0);
                if r2.0 == e {
                    assert(s[r2.0] == t);
                }
            }
        }
    }
}

/// A day is in state `t` exactly when some run of the decomposition covers
/// it.
pub proof fn lemma_runs_from_cover(s: Seq<DayState>, t: DayState, i: int, k: int)
    requires
        0 <= i <= k < s.len(),
    ensures
        s[k] == t <==> exists|j: int|
            0 <= j < spec_runs_from(s, t, i).len() && (#[trigger] spec_runs_from(s, t, i)[j]).0
                <= k < spec_runs_from(s, t, i)[j].1,
    decreases s.len() - i,
{
    lemma_runs_from_props(s, t, i);
    if s[i] != t {
        if k > i {
            lemma_runs_from_cover(s, t, i + 1, k);
        }
    } else {
        lemma_block_end_props(s, t, i);
        let e = block_end(s, t, i);
        if k < e {
            assert((spec_runs_from(s, t, i)[0]).0 <= k < spec_runs_from(s, t, i)[0].1);
        } else {
            lemma_runs_from_cover(s, t, e, k);
            let rest = spec_runs_from(s, t, e);
            if s[k] == t {
                let j = choose|j: int| 0 <= j < rest.len() && (#[trigger] rest[j]).0 <= k < rest[j].1;
                assert((spec_runs_from(s, t, i)[j + 1]).0 <= k < spec_runs_from(s, t, i)[j + 1].1);
            } else {
                assert forall|j: int|
                    0 <= j < spec_runs_from(s, t, i).len() implies !((#[trigger] spec_runs_from(
                    s,
                    t,
                    i,
                )[j]).0 <= k < spec_runs_from(s, t, i)[j].1) by {
                    if j > 0 {
                        assert(spec_runs_from(s, t, i)[j] == rest[j - 1]);
                    }
                }
            }
        }
    }
}

/// Each maximal block of state `t` appears as exactly one run of the
/// decomposition: the reconciler issues exactly one fetch per maximal run.
pub proof fn lemma_maximal_block_is_one_run(s: Seq<DayState>, t: DayState, a: int, b: int)
    requires
        0 <= a < b <= s.len(),
        forall|k: int| a <= k < b ==> s[k] == t,
        a == 0 || s[a - 1] != t,
        b == s.len() || s[b] != t,
    ensures
        exists|j: int|
            0 <= j < spec_runs(s, t).len() && #[trigger] spec_runs(s, t)[j] == (a, b),
        forall|j1: int, j2: int|
            (0 <= j1 < spec_runs(s, t).len() && 0 <= j2 < spec_runs(s, t).len()
                && #[trigger] spec_runs(s, t)[j1] == (a, b) && #[trigger] spec_runs(s, t)[j2] == (
            a,
            b,
            )) ==> j1 == j2,
{
    lemma_runs_from_props(s, t, 0);
    lemma_runs_from_cover(s, t, 0, a);
    let j = choose|j: int|
        0 <= j < spec_runs(s, t).len() && (#[trigger] spec_runs(s, t)[j]).0 <= a < spec_runs(
            s,
            t,
        )[j].1;
    let r = spec_runs(s, t)[j];
    // The run containing `a` must start at `a`: a strictly earlier start would
    // put `a - 1` inside the run, against left-maximality of the block.
    assert(r.0 == a);
    // The run must end at `b`: ending earlier would make `r.1` both inside the
    // block (state `t`) and a run end (not state `t`); ending later would put
    // `b` inside the run, against right-maximality of the block.
    if r.1 < b {
        assert(s[r.1] == t);
        assert(false);
    }
    if r.1 > b {
        assert(s[b] == t);
        assert(false);
    }
    assert(spec_runs(s, t)[j] == (a, b));
}

/// Computes the maximal runs of one target state, as `(start, end)` index
/// pairs into the classification.
pub fn collect_runs(states: &Vec<DayState>, target: DayState) -> (runs: Vec<(usize, usize)>)
    ensures
        runs@.map_values(|r: (usize, usize)| (r.0 as int, r.1 as int)) == spec_runs(
            states@,
            target,
        ),
{
    let n = states.len();
    let mut runs: Vec<(usize, usize)> = Vec::new();
    let mut i: usize = 0;
    while i < n
        invariant
            i <= n,
            n == states@.len(),
            spec_runs(states@, target) == runs@.map_values(|r: (usize, usize)| (r.0 as int, r.1 as int))
                + spec_runs_from(states@, target, i as int),
        decreases n - i,
    {
        if states[i] == target {
            let mut j: usize = i + 1;
            while j < n && states[j] == target
                invariant
                    i < j <= n,
                    n == states@.len(),
                    forall|k: int| i <= k < j ==> states@[k] == target,
                    block_end(states@, target, i as int) == block_end(states@, target, j as int),
                decreases n - j,
            {
                j += 1;
            }
            proof {
                lemma_block_end_props(states@, target, j as int);
                assert(block_end(states@, target, i as int) == j as int);
                assert(spec_runs_from(states@, target, i as int) == seq![(i as int, j as int)]
                    + spec_runs_from(states@, target, j as int));
            }
            let ghost old_runs = runs@;
            runs.push((i, j));
            proof {
                assert(runs@.map_values(|r: (usize, usize)| (r.0 as int, r.1 as int)) =~= old_runs.map_values(
                    |r: (usize, usize)| (r.0 as int, r.1 as int),
                ).push((i as int, j as int)));
                assert(spec_runs(states@, target) =~= runs@.map_values(
                    |r: (usize, usize)| (r.0 as int, r.1 as int),
                ) + spec_runs_from(states@, target, j as int));
            }
            i = j;
        } else {
            i += 1;
        }
    }
    proof {
        assert(spec_runs(states@, target) =~= runs@.map_values(
            |r: (usize, usize)| (r.0 as int, r.1 as int),
        ));
    }
    runs
}


/// One calendar item as the reconciler sees it: the `YYYY-MM-DD` date string
/// it is bucketed under, if it carries one, and its serialized body.
pub struct CalItem {
    pub date: Option<String>,
    pub body: String,
}

/// The mathematical content of one calendar item.
pub ghost struct CalItemView {
    pub date: Option<Seq<char>>,
    pub body: Seq<char>,
}

impl View for CalItem {
    type V = CalItemView;

    open spec fn view(&self) -> CalItemView {
        CalItemView {
            date: match self.date {
                Some(d) => Some(d@),
                None => None,
            },
            body: self.body@,
        }
    }
}

/// Copies one item.
pub fn clone_item(item: &CalItem) -> (r: CalItem)
    ensures
        r@ == item@,
{
    CalItem {
        date: match &item.date {
            Some(d) => Some(d.clone()),
            None => None,
        },
        body: item.body.clone(),
    }
}

/// The items that belong to the day bucket of one date, in fetch order.
pub open spec fn day_filter(items: Seq<CalItemView>, date: Seq<char>) -> Seq<CalItemView>
    decreases items.len(),
{
    if items.len() == 0 {
        Seq::empty()
    } else {
        let rest = day_filter(items.drop_last(), date);
        if items.last().date == Some(date) {
            rest.push(items.last())
        } else {
            rest
        }
    }
}

/// Selects the items dated exactly `date`, preserving their order.
pub fn filter_items_for_day(items: &Vec<CalItem>, date: &String) -> (r: Vec<CalItem>)
    ensures
        r@.map_values(|i: CalItem| i@) == day_filter(
            items@.map_values(|i: CalItem| i@),
            date@,
        ),
{
    let ghost iv = items@.map_values(|i: CalItem| i@);
    let mut r: Vec<CalItem> = Vec::new();
    let n = items.len();
    let mut j: usize = 0;
    while j < n
        invariant
            j <= n,
            n == items@.len(),
            iv == items@.map_values(|i: CalItem| i@),
            r@.map_values(|i: CalItem| i@) == day_filter(iv.take(j as int), date@),
        decreases n - j,
    {
        let matches_day = match &items[j].date {
            Some(d) => *d == *date,
            None => false,
        };
        let ghost pre = r@.map_values(|i: CalItem| i@);
        proof {
            assert(matches_day == (iv[j as int].date == Some(date@)));
            assert(iv.take(j + 1).drop_last() =~= iv.take(j as int));
            assert(iv.take(j + 1).last() == iv[j as int]);
        }
        if matches_day {
            r.push(clone_item(&items[j]));
            proof {
                assert(r@.map_values(|i: CalItem| i@) =~= pre.push(iv[j as int]));
                assert(day_filter(iv.take(j + 1), date@) == day_filter(
                    iv.take(j as int),
                    date@,
                ).push(iv[j as int]));
            }
        } else {
            proof {
                assert(day_filter(iv.take(j + 1), date@) == day_filter(iv.take(j as int), date@));
            }
        }
        j += 1;
    }
    proof {
        assert(iv.take(n as int) =~= iv);
    }
    r
}

/// The serialized day bucket: the bodies joined with commas.
pub open spec fn spec_join_bodies(bodies: Seq<Seq<char>>) -> Seq<char>
    decreases bodies.len(),
{
    if bodies.len() == 0 {
        Seq::empty()
    } else if bodies.len() == 1 {
        bodies[0]
    } else {
        spec_join_bodies(bodies.drop_last()) + ","@ + bodies.last()
    }
}

/// The serialized day bucket, framed as a list.
pub open spec fn bucket_payload(bodies: Seq<Seq<char>>) -> Seq<char> {
    "["@ + spec_join_bodies(bodies) + "]"@
}

/// Serializes one day bucket as a list of the item bodies. A day with no
/// items becomes the empty list, so the day is stored as confirmed empty
/// rather than left missing.
pub fn bucket_to_payload(bucket: &Vec<CalItem>) -> (s: String)
    ensures
        s@ == bucket_payload(bucket@.map_values(|i: CalItem| i.body@)),
{
    let ghost bodies = bucket@.map_values(|i: CalItem| i.body@);
    let mut s: String = "[".to_owned();
    let n = bucket.len();
    let mut j: usize = 0;
    while j < n
        invariant
            j <= n,
            n == bucket@.len(),
            bodies == bucket@.map_values(|i: CalItem| i.body@),
            s@ == "["@ + spec_join_bodies(bodies.take(j as int)),
        decreases n - j,
    {
        if j > 0 {
            s.append(",");
        }
        s.append(bucket[j].body.as_str());
        proof {
            assert(bodies.take(j + 1).drop_last() =~= bodies.take(j as int));
            assert(bodies.take(j + 1).last() == bodies[j as int]);
            if j == 0 {
                assert(s@ =~= "["@ + spec_join_bodies(bodies.take(j + 1)));
            }
        }
        j += 1;
    }
    s.append("]");
    proof {
        assert(bodies.take(n as int) =~= bodies);
    }
    s
}

/// The user-data key of one calendar day: `{prefix}_{date}`.
pub open spec fn user_key(prefix: Seq<char>, date: Seq<char>) -> Seq<char> {
    prefix + "_"@ + date
}

/// Builds the user-data key of one calendar day.
pub fn make_user_key(prefix: &str, date: &str) -> (k: String)
    ensures
        k@ == user_key(prefix@, date@),
{
    let mut k = prefix.to_owned();
    k.append("_");
    k.append(date);
    proof {
        assert(k@ =~= user_key(prefix@, date@));
    }
    k
}

/// Keys of different dates under one prefix never collide.
pub proof fn lemma_user_key_injective(prefix: Seq<char>, a: Seq<char>, b: Seq<char>)
    requires
        user_key(prefix, a) == user_key(prefix, b),
    ensures
        a == b,
{
    reveal_strlit("_");
    let ka = user_key(prefix, a);
    let kb = user_key(prefix, b);
    assert(ka.len() == prefix.len() + 1 + a.len());
    assert(kb.len() == prefix.len() + 1 + b.len());
    assert(a.len() == b.len());
    assert forall|i: int| 0 <= i < a.len() implies a[i] == b[i] by {
        assert(ka[prefix.len() + 1 + i] == a[i]);
        assert(kb[prefix.len() + 1 + i] == b[i]);
    }
    assert(a =~= b);
}

/// The table after one fetched run has been written through: day by day, the
/// bucket of items dated that day is serialized and stored, stamped with the
/// write time.
pub open spec fn apply_run_spec(
    m: Map<Seq<char>, RowView>,
    prefix: Seq<char>,
    dates: Seq<Seq<char>>,
    items: Seq<CalItemView>,
    now: int,
) -> Map<Seq<char>, RowView>
    decreases dates.len(),
{
    if dates.len() == 0 {
        m
    } else {
        cache_put_spec(
            apply_run_spec(m, prefix, dates.drop_last(), items, now),
            user_key(prefix, dates.last()),
            bucket_payload(day_filter(items, dates.last()).map_values(|iv: CalItemView| iv.body)),
            now,
            i64::MAX as int,
        )
    }
}

/// Writes one fetched run through the cache: every requested day of the run
/// receives its bucket of items, a day with no items receiving the confirmed
/// empty list.
pub fn apply_fetched_run(
    table: &mut KvTable,
    prefix: &str,
    day_dates: &Vec<String>,
    items: &Vec<CalItem>,
    now: i64,
)
    requires
        old(table).wf(),
    ensures
        final(table).wf(),
        final(table)@ == apply_run_spec(
            old(table)@,
            prefix@,
            day_dates@.map_values(|d: String| d@),
            items@.map_values(|i: CalItem| i@),
            now as int,
        ),
{
    let ghost dates = day_dates@.map_values(|d: String| d@);
    let ghost iv = items@.map_values(|i: CalItem| i@);
    let n = day_dates.len();
    let mut d: usize = 0;
    while d < n
        invariant
            d <= n,
            n == day_dates@.len(),
            dates == day_dates@.map_values(|dd: String| dd@),
            iv == items@.map_values(|i: CalItem| i@),
            table.wf(),
            table@ == apply_run_spec(old(table)@, prefix@, dates.take(d as int), iv, now as int),
        decreases n - d,
    {
        let bucket = filter_items_for_day(items, &day_dates[d]);
        let payload = bucket_to_payload(&bucket);
        let key = make_user_key(prefix, day_dates[d].as_str());
        proof {
            assert(dates.take(d + 1).drop_last() =~= dates.take(d as int));
            assert(dates.take(d + 1).last() == dates[d as int]);
            assert(bucket@.map_values(|i: CalItem| i.body@) =~= bucket@.map_values(
                |i: CalItem| i@,
            ).map_values(|ivv: CalItemView| ivv.body));
        }
        set_user_data_cache(table, key.as_str(), payload, now);
        d += 1;
    }
    proof {
        assert(dates.take(n as int) =~= dates);
    }
}

/// After a run is written through, each of its days holds exactly its bucket,
/// provided the day's date appears only once in the run.
pub proof fn lemma_apply_run_reads(
    m: Map<Seq<char>, RowView>,
    prefix: Seq<char>,
    dates: Seq<Seq<char>>,
    items: Seq<CalItemView>,
    now: int,
    d: int,
)
    requires
        0 <= d < dates.len(),
        forall|d2: int| d < d2 < dates.len() ==> dates[d2] != dates[d],
    ensures
        apply_run_spec(m, prefix, dates, items, now).contains_key(user_key(prefix, dates[d])),
        apply_run_spec(m, prefix, dates, items, now)[user_key(prefix, dates[d])] == (RowView {
            payload: bucket_payload(
                day_filter(items, dates[d]).map_values(|iv: CalItemView| iv.body),
            ),
            updated_at: now,
            expires_at: i64::MAX as int,
        }),
    decreases dates.len(),
{
    if d == dates.len() - 1 {
    } else {
        assert(dates.drop_last()[d] == dates[d]);
        lemma_apply_run_reads(m, prefix, dates.drop_last(), items, now, d);
        // The final write of the run is for a different date, hence a
        // different key.
        if user_key(prefix, dates.last()) == user_key(prefix, dates[d]) {
            lemma_user_key_injective(prefix, dates.last(), dates[d]);
        }
    }
}


/// A day of a run that the upstream fetch returned no items for is stored as
/// the confirmed empty list: a later read finds it present and fresh, not
/// missing.
pub proof fn lemma_empty_day_confirmed(
    m: Map<Seq<char>, RowView>,
    prefix: Seq<char>,
    dates: Seq<Seq<char>>,
    items: Seq<CalItemView>,
    now: int,
    d: int,
    later: int,
)
    requires
        0 <= d < dates.len(),
        forall|d2: int| d < d2 < dates.len() ==> dates[d2] != dates[d],
        day_filter(items, dates[d]) == Seq::<CalItemView>::empty(),
    ensures
        user_get_spec(
            apply_run_spec(m, prefix, dates, items, now),
            user_key(prefix, dates[d]),
            later,
        ) == Some(("[]"@, now + STALE_WHILE_REVALIDATE_USER < later)),
{
    lemma_apply_run_reads(m, prefix, dates, items, now, d);
    proof_empty_payload();
}

/// The serialized empty bucket is the two-character empty list.
proof fn proof_empty_payload()
    ensures
        bucket_payload(Seq::<Seq<char>>::empty()) == "[]"@,
        Seq::<CalItemView>::empty().map_values(|iv: CalItemView| iv.body) == Seq::<Seq<char>>::empty(),
{
    reveal_strlit("[");
    reveal_strlit("]");
    reveal_strlit("[]");
    assert(Seq::<CalItemView>::empty().map_values(|iv: CalItemView| iv.body)
        =~= Seq::<Seq<char>>::empty());
    assert(bucket_payload(Seq::<Seq<char>>::empty()) =~= "[]"@);
}

/// Probes the cache for every requested day, in order: the stored payload and
/// its staleness flag where the day is cached, nothing where it is missing.
pub fn probe_days(table: &KvTable, prefix: &str, dates: &Vec<String>, now: i64) -> (r: Vec<
    Option<CacheResult>,
>)
    requires
        table.wf(),
    ensures
        r@.len() == dates@.len(),
        forall|d: int|
            0 <= d < dates@.len() ==> (match #[trigger] r@[d] {
                Some(cr) => user_get_spec(table@, user_key(prefix@, dates@[d]@), now as int)
                    == Some((cr.data@, cr.is_stale)),
                None => user_get_spec(table@, user_key(prefix@, dates@[d]@), now as int) is None,
            }),
{
    let n = dates.len();
    let mut r: Vec<Option<CacheResult>> = Vec::new();
    let mut d: usize = 0;
    while d < n
        invariant
            d <= n,
            n == dates@.len(),
            r@.len() == d,
            table.wf(),
            forall|d2: int|
                0 <= d2 < d ==> (match #[trigger] r@[d2] {
                    Some(cr) => user_get_spec(table@, user_key(prefix@, dates@[d2]@), now as int)
                        == Some((cr.data@, cr.is_stale)),
                    None => user_get_spec(table@, user_key(prefix@, dates@[d2]@), now as int)
                        is None,
                }),
        decreases n - d,
    {
        let key = make_user_key(prefix, dates[d].as_str());
        let probe = get_user_data_cache(table, key.as_str(), now);
        r.push(probe);
        d += 1;
    }
    r
}

/// Classifies one probed day: missing where nothing usable is cached (no row,
/// or a payload the caller could not decode), stale or fresh otherwise.
pub fn day_state_of(probe: &Option<CacheResult>, decoded_ok: bool) -> (r: DayState)
    ensures
        r == (match *probe {
            Some(ref cr) => if !decoded_ok {
                DayState::Missing
            } else if cr.is_stale {
                DayState::Stale
            } else {
                DayState::Fresh
            },
            None => DayState::Missing,
        }),
{
    match probe {
        Some(cr) => {
            if !decoded_ok {
                DayState::Missing
            } else if cr.is_stale {
                DayState::Stale
            } else {
                DayState::Fresh
            }
        }
        None => DayState::Missing,
    }
}

/// The fetch plan of one calendar request: the maximal runs of missing days,
/// fetched synchronously, and the maximal runs of stale days, refreshed in
/// the background. Runs are `(start, end)` index pairs into the
/// classification.
pub fn plan_calendar_runs(states: &Vec<DayState>) -> (r: (Vec<(usize, usize)>, Vec<
    (usize, usize),
>))
    ensures
        r.0@.map_values(|p: (usize, usize)| (p.0 as int, p.1 as int)) == spec_runs(
            states@,
            DayState::Missing,
        ),
        r.1@.map_values(|p: (usize, usize)| (p.0 as int, p.1 as int)) == spec_runs(
            states@,
            DayState::Stale,
        ),
{
    let missing = collect_runs(states, DayState::Missing);
    let stale = collect_runs(states, DayState::Stale);
    (missing, stale)
}

} // verus!
