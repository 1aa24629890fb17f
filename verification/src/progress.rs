//! Watch progress and the "up next" selection.
//!
//! The upstream lists a user's watched shows; for each show in a scan window
//! the watch progress is fetched, shows with unaired or unwatched episodes
//! contribute their next episode, and the result is ordered by most recent
//! watch. The scan window is three times the requested page size, so the
//! result is whatever qualifies inside that window — not an exact page.

use vstd::prelude::*;
use vstd::string::*;
use vstd::multiset::Multiset;
use crate::model::{Episode, Show};
use crate::order::{lex_leq, lemma_lex_total, lemma_lex_trans, str_lex_leq};

verus! {

/// A show of the user's watched list.
#[derive(Clone, Debug)]
pub struct WatchedShow {
    pub plays: u32,
    pub last_watched_at: Option<String>,
    pub last_updated_at: Option<String>,
    pub show: Show,
}

/// A show's aired/completed counts and last watch, as the result carries
/// them.
#[derive(Clone, Debug)]
pub struct ShowProgressSummary {
    pub aired: u32,
    pub completed: u32,
    pub last_watched_at: Option<String>,
}

/// A show's watch progress as the upstream reports it.
#[derive(Clone, Debug)]
pub struct ShowProgress {
    pub aired: u32,
    pub completed: u32,
    pub last_watched_at: Option<String>,
    pub next_episode: Option<Episode>,
}

/// One entry of the up-next list.
#[derive(Clone, Debug)]
pub struct UpNextItem {
    pub show: Show,
    pub next_episode: Episode,
    pub progress: ShowProgressSummary,
}

/// The scan window of one page: three times the page size, skipping the
/// windows of the earlier pages.
pub fn scan_window(page: usize, limit: usize) -> (r: (usize, usize))
    requires
        page >= 1,
        limit * 3 <= usize::MAX,
        (page - 1) * (limit * 3) <= usize::MAX,
    ensures
        r.1 == limit * 3,
        r.0 == (page - 1) * r.1,
{
    let scan_size = limit * 3;
    let skip = (page - 1) * scan_size;
    (skip, scan_size)
}

/// A show joins the up-next list exactly when it has aired episodes left to
/// watch and the upstream names the next one; the entry pairs the show with
/// that episode and its progress counts.
pub fn build_up_next_item(show: Show, progress: ShowProgress) -> (r: Option<UpNextItem>)
    ensures
        (r is Some) == (progress.completed < progress.aired && progress.next_episode is Some),
        (match r {
            Some(u) => {
                &&& u.show == show
                &&& Some(u.next_episode) == progress.next_episode
                &&& u.progress.aired == progress.aired
                &&& u.progress.completed == progress.completed
                &&& (match (u.progress.last_watched_at, progress.last_watched_at) {
                    (Some(a), Some(b)) => a@ == b@,
                    (None, None) => true,
                    _ => false,
                })
            },
            None => true,
        }),
{
    if progress.completed < progress.aired {
        match progress.next_episode {
            Some(next_episode) => Some(
                UpNextItem {
                    show,
                    next_episode,
                    progress: ShowProgressSummary {
                        aired: progress.aired,
                        completed: progress.completed,
                        last_watched_at: match &progress.last_watched_at {
                            Some(s) => Some(s.clone()),
                            None => None,
                        },
                    },
                },
            ),
            None => None,
        }
    } else {
        None
    }
}

/// The ordering key of an up-next entry: its last watch timestamp, with
/// never-watched entries keyed lowest.
pub open spec fn up_next_key(u: UpNextItem) -> Seq<char> {
    match u.progress.last_watched_at {
        Some(s) => s@,
        None => Seq::empty(),
    }
}

fn up_next_key_of(u: &UpNextItem) -> (r: &str)
    ensures
        r@ == up_next_key(*u),
{
    proof {
        reveal_strlit("");
        assert(""@ =~= Seq::<char>::empty());
    }
    match &u.progress.last_watched_at {
        Some(s) => s.as_str(),
        None => "",
    }
}

/// The entries of one key, in their order of appearance.
pub open spec fn up_next_filter(s: Seq<UpNextItem>, k: Seq<char>) -> Seq<UpNextItem>
    decreases s.len(),
{
    if s.len() == 0 {
        Seq::empty()
    } else {
        let rest = up_next_filter(s.drop_first(), k);
        if up_next_key(s.first()) == k {
            seq![s.first()] + rest
        } else {
            rest
        }
    }
}

proof fn lemma_up_next_filter_concat(a: Seq<UpNextItem>, b: Seq<UpNextItem>, k: Seq<char>)
    ensures
        up_next_filter(a + b, k) == up_next_filter(a, k) + up_next_filter(b, k),
    decreases a.len(),
{
    if a.len() == 0 {
        assert(a + b =~= b);
        assert(up_next_filter(a, k) + up_next_filter(b, k) =~= up_next_filter(b, k));
    } else {
        lemma_up_next_filter_concat(a.drop_first(), b, k);
        assert((a + b).first() == a.first());
        assert((a + b).drop_first() =~= a.drop_first() + b);
        if up_next_key(a.first()) == k {
            assert(up_next_filter(a + b, k) =~= up_next_filter(a, k) + up_next_filter(b, k));
        } else {
            assert(up_next_filter(a + b, k) =~= up_next_filter(a, k) + up_next_filter(b, k));
        }
    }
}

proof fn lemma_up_next_filter_absent(s: Seq<UpNextItem>, k: Seq<char>)
    requires
        forall|i: int| 0 <= i < s.len() ==> up_next_key(#[trigger] s[i]) != k,
    ensures
        up_next_filter(s, k) == Seq::<UpNextItem>::empty(),
    decreases s.len(),
{
    if s.len() > 0 {
        assert(up_next_key(s[0]) != k);
        assert forall|i: int| 0 <= i < s.drop_first().len() implies up_next_key(
            #[trigger] s.drop_first()[i],
        ) != k by {
            assert(s.drop_first()[i] == s[i + 1]);
        }
        lemma_up_next_filter_absent(s.drop_first(), k);
    }
}

/// Orders the up-next entries by last watch, most recent first. The result
/// is a permutation of the input in descending key order.
pub fn sort_up_next(items: Vec<UpNextItem>) -> (r: Vec<UpNextItem>)
    ensures
        r@.to_multiset() == items@.to_multiset(),
        r@.len() == items@.len(),
        forall|i: int, j: int|
            0 <= i < j < r@.len() ==> lex_leq(up_next_key(#[trigger] r@[j]), up_next_key(
                #[trigger] r@[i],
            )),
        forall|k: Seq<char>| #[trigger] up_next_filter(r@, k) == up_next_filter(items@, k),
{
    broadcast use vstd::seq_lib::group_to_multiset_ensures;

    let mut rest = items;
    let mut r: Vec<UpNextItem> = Vec::new();
    let ghost total = rest@.to_multiset();
    let ghost orig = rest@;
    let ghost mut done: Seq<UpNextItem> = Seq::empty();
    proof {
        assert(r@.to_multiset() =~= Multiset::<UpNextItem>::empty());
        assert(r@.to_multiset().add(rest@.to_multiset()) =~= total);
        assert(done + rest@ =~= orig);
        assert forall|k: Seq<char>| #[trigger] up_next_filter(r@, k) == up_next_filter(
            done,
            k,
        ) by {
            assert(r@ =~= Seq::<UpNextItem>::empty());
            assert(done =~= Seq::<UpNextItem>::empty());
        }
    }
    while rest.len() > 0
        invariant
            r@.to_multiset().add(rest@.to_multiset()) == total,
            r@.len() + rest@.len() == items@.len(),
            total == items@.to_multiset(),
            orig == items@,
            done + rest@ == orig,
            forall|i: int, j: int|
                0 <= i < j < r@.len() ==> lex_leq(up_next_key(#[trigger] r@[j]), up_next_key(
                    #[trigger] r@[i],
                )),
            forall|k: Seq<char>| #[trigger] up_next_filter(r@, k) == up_next_filter(done, k),
        decreases rest@.len(),
    {
        let ghost rest0 = rest@;
        let it = rest.remove(0);
        let ghost rv = r@;
        let key: String = up_next_key_of(&it).to_owned();
        let rl = r.len();
        let mut p: usize = 0;
        while p < rl && str_lex_leq(key.as_str(), up_next_key_of(&r[p]))
            invariant
                p <= rl,
                rl == r@.len(),
                rv == r@,
                key@ == up_next_key(it),
                forall|q: int| 0 <= q < p ==> lex_leq(up_next_key(it), up_next_key(#[trigger] rv[q])),
            decreases rl - p,
        {
            p += 1;
        }
        let ghost itv = it;
        r.insert(p, it);
        proof {
            assert(r@ =~= rv.insert(p as int, itv));
            // Order: the new entry's key is at or below everything before it
            // and at or above everything after it.
            assert forall|i: int, j: int|
                0 <= i < j < r@.len() implies lex_leq(up_next_key(#[trigger] r@[j]), up_next_key(
                #[trigger] r@[i],
            )) by {
                if j < p as int {
                    assert(r@[i] == rv[i] && r@[j] == rv[j]);
                } else if i > p as int {
                    assert(r@[i] == rv[i - 1] && r@[j] == rv[j - 1]);
                } else if i < p as int && j == p as int {
                    assert(r@[i] == rv[i] && r@[j] == itv);
                } else if i < p as int && j > p as int {
                    assert(r@[i] == rv[i] && r@[j] == rv[j - 1]);
                } else {
                    // i is the insertion point and j lies beyond it; the scan
                    // stopped at an entry keyed below the new one.
                    assert(r@[i] == itv && r@[j] == rv[j - 1]);
                    assert((p as int) < rl);
                    lemma_lex_total(up_next_key(itv), up_next_key(rv[p as int]));
                    assert(lex_leq(up_next_key(rv[p as int]), up_next_key(itv)));
                    if j - 1 > p as int {
                        lemma_lex_trans(
                            up_next_key(rv[j - 1]),
                            up_next_key(rv[p as int]),
                            up_next_key(itv),
                        );
                    }
                }
            }
            // Multiset bookkeeping for the move from `rest` into `r`.
            rv.insert_ensures(p as int, itv);
            r@.to_multiset_ensures();
            rest0.to_multiset_ensures();
            assert(r@[p as int] == itv);
            assert(r@.remove(p as int) =~= rv);
            assert((r@.remove(p as int)).to_multiset() =~= r@.to_multiset().remove(r@[p as int]));
            assert(r@.contains(itv)) by {
                assert(r@[p as int] == itv);
            }
            assert(r@.to_multiset().count(itv) > 0);
            assert(rv.to_multiset() =~= r@.to_multiset().remove(itv));
            assert(r@.to_multiset() =~= rv.to_multiset().insert(itv));
            assert(rest@ =~= rest0.remove(0));
            assert((rest0.remove(0)).to_multiset() =~= rest0.to_multiset().remove(rest0[0]));
            assert(itv == rest0[0]);
            assert(rest0.contains(rest0[0])) by {
                assert(rest0[0] == rest0[0]);
            }
            assert(rest0.to_multiset().count(rest0[0]) > 0);
            assert(rest0.to_multiset() =~= rest@.to_multiset().insert(itv));
            assert(r@.to_multiset().add(rest@.to_multiset()) =~= total);
            // Stability: the new entry lands after everything of its own key,
            // and everything past the insertion point is keyed strictly below
            // it.
            let a = rv.take(p as int);
            let b = rv.skip(p as int);
            assert(r@ =~= a + seq![itv] + b);
            assert(rv =~= a + b);
            let done2 = done.push(itv);
            assert(done2 + rest@ =~= orig) by {
                assert(done + rest0 =~= orig);
                assert(rest0 =~= seq![itv] + rest@);
            }
            assert forall|k: Seq<char>| #[trigger] up_next_filter(r@, k) == up_next_filter(
                done2,
                k,
            ) by {
                lemma_up_next_filter_concat(a + seq![itv], b, k);
                assert(r@ == (a + seq![itv]) + b);
                lemma_up_next_filter_concat(a, seq![itv], k);
                lemma_up_next_filter_concat(a, b, k);
                assert(done2.drop_last() =~= done);
                assert(done2 =~= done + seq![itv]);
                lemma_up_next_filter_concat(done, seq![itv], k);
                assert(up_next_filter(seq![itv], k) == if up_next_key(itv) == k {
                    seq![itv] + Seq::<UpNextItem>::empty()
                } else {
                    Seq::<UpNextItem>::empty()
                }) by {
                    let single = seq![itv];
                    assert(single.len() == 1);
                    assert(single.first() == itv);
                    assert(single.drop_first() =~= Seq::<UpNextItem>::empty());
                    assert(up_next_filter(single.drop_first(), k)
                        == Seq::<UpNextItem>::empty());
                }
                if up_next_key(itv) == k {
                    assert forall|q: int| 0 <= q < b.len() implies up_next_key(#[trigger] b[q])
                        != k by {
                        assert(b[q] == rv[p as int + q]);
                        if p as int + q > p as int {
                            assert(lex_leq(up_next_key(rv[p as int + q]), up_next_key(
                                rv[p as int],
                            )));
                        }
                    }
                    lemma_up_next_filter_absent(b, k);
                    assert(up_next_filter(r@, k) =~= up_next_filter(rv, k) + seq![itv]);
                    assert(up_next_filter(done2, k) =~= up_next_filter(done, k) + seq![itv]);
                } else {
                    assert(up_next_filter(r@, k) =~= up_next_filter(rv, k));
                    assert(up_next_filter(done2, k) =~= up_next_filter(done, k));
                }
            }
            done = done2;
        }
    }
    proof {
        assert(rest@.to_multiset() =~= Multiset::<UpNextItem>::empty()) by {
            assert(rest@ =~= Seq::<UpNextItem>::empty());
        }
        assert(r@.to_multiset() =~= total);
        assert(done =~= items@);
    }
    r
}

} // verus!
