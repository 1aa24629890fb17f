//! Ordering of calendar items by date, and the stable sort that assembles the
//! reconciler's final result.

use vstd::prelude::*;
use vstd::string::*;
use vstd::multiset::Multiset;
use crate::reconcile::{CalItem, CalItemView, clone_item};

verus! {

/// Lexicographic order on character sequences, by code point, with a prefix
/// ordered before its extensions. This is the order of Rust's string
/// comparison.
pub open spec fn lex_leq(a: Seq<char>, b: Seq<char>) -> bool
    decreases a.len(),
{
    if a.len() == 0 {
        true
    } else if b.len() == 0 {
        false
    } else if a[0] != b[0] {
        (a[0] as u32) < (b[0] as u32)
    } else {
        lex_leq(a.drop_first(), b.drop_first())
    }
}

/// The order is total.
pub proof fn lemma_lex_total(a: Seq<char>, b: Seq<char>)
    ensures
        lex_leq(a, b) || lex_leq(b, a),
    decreases a.len(),
{
    if a.len() > 0 && b.len() > 0 {
        if a[0] == b[0] {
            lemma_lex_total(a.drop_first(), b.drop_first());
        } else {
            assert((a[0] as u32) != (b[0] as u32)) by {
                vstd::utf8::char_u32_cast(a[0], a[0] as u32);
                vstd::utf8::char_u32_cast(b[0], b[0] as u32);
            }
        }
    }
}

/// The order is transitive.
pub proof fn lemma_lex_trans(a: Seq<char>, b: Seq<char>, c: Seq<char>)
    requires
        lex_leq(a, b),
        lex_leq(b, c),
    ensures
        lex_leq(a, c),
    decreases a.len(),
{
    if a.len() > 0 && b.len() > 0 && c.len() > 0 && a[0] == b[0] && b[0] == c[0] {
        lemma_lex_trans(a.drop_first(), b.drop_first(), c.drop_first());
    }
}

/// Compares two strings in the lexicographic order.
pub fn str_lex_leq(a: &str, b: &str) -> (r: bool)
    ensures
        r == lex_leq(a@, b@),
{
    let an = a.unicode_len();
    let bn = b.unicode_len();
    let mut i: usize = 0;
    proof {
        assert(a@.skip(0) =~= a@);
        assert(b@.skip(0) =~= b@);
    }
    loop
        invariant
            an == a@.len(),
            bn == b@.len(),
            i <= an,
            i <= bn,
            lex_leq(a@, b@) == lex_leq(a@.skip(i as int), b@.skip(i as int)),
        decreases an - i,
    {
        if i >= an {
            return true;
        }
        if i >= bn {
            return false;
        }
        let ca = a.get_char(i);
        let cb = b.get_char(i);
        if ca != cb {
            proof {
                assert(a@.skip(i as int)[0] == ca);
                assert(b@.skip(i as int)[0] == cb);
            }
            return (ca as u32) < (cb as u32);
        }
        proof {
            assert(a@.skip(i as int).drop_first() =~= a@.skip(i + 1));
            assert(b@.skip(i as int).drop_first() =~= b@.skip(i + 1));
            assert(a@.skip(i as int)[0] == ca);
            assert(b@.skip(i as int)[0] == cb);
        }
        i += 1;
    }
}

/// The sort key of one item: its date string, or the empty string for an
/// undated item, which therefore sorts first.
pub open spec fn item_key(iv: CalItemView) -> Seq<char> {
    match iv.date {
        Some(d) => d,
        None => Seq::empty(),
    }
}

/// Reads the sort key of one item.
pub fn item_key_of(item: &CalItem) -> (r: &str)
    ensures
        r@ == item_key(item@),
{
    proof {
        reveal_strlit("");
        assert(""@ =~= Seq::<char>::empty());
    }
    match &item.date {
        Some(d) => d.as_str(),
        None => "",
    }
}


/// Whether a sequence of items is ordered by date, ascending.
pub open spec fn date_sorted(s: Seq<CalItemView>) -> bool {
    forall|i: int, j: int| 0 <= i < j < s.len() ==> lex_leq(item_key(s[i]), item_key(s[j]))
}

/// Insertion of one item into a date-ordered sequence: it lands after every
/// item whose key is at or below its own, so items of equal date keep their
/// order of arrival.
pub open spec fn spec_insert_by_date(sorted: Seq<CalItemView>, x: CalItemView) -> Seq<CalItemView>
    decreases sorted.len(),
{
    if sorted.len() == 0 {
        seq![x]
    } else if lex_leq(item_key(sorted.first()), item_key(x)) {
        seq![sorted.first()] + spec_insert_by_date(sorted.drop_first(), x)
    } else {
        seq![x] + sorted
    }
}

/// The stable sort of a sequence of items by date: each item in turn is
/// inserted after its equals.
pub open spec fn spec_sort_by_date(s: Seq<CalItemView>) -> Seq<CalItemView>
    decreases s.len(),
{
    if s.len() == 0 {
        Seq::empty()
    } else {
        spec_insert_by_date(spec_sort_by_date(s.drop_last()), s.last())
    }
}

/// The items of one date, in their order of appearance.
pub open spec fn key_filter(s: Seq<CalItemView>, k: Seq<char>) -> Seq<CalItemView>
    decreases s.len(),
{
    if s.len() == 0 {
        Seq::empty()
    } else {
        let rest = key_filter(s.drop_first(), k);
        if item_key(s.first()) == k {
            seq![s.first()] + rest
        } else {
            rest
        }
    }
}

proof fn lemma_key_filter_push(s: Seq<CalItemView>, x: CalItemView, k: Seq<char>)
    ensures
        key_filter(s.push(x), k) == key_filter(s, k) + (if item_key(x) == k {
            seq![x]
        } else {
            Seq::<CalItemView>::empty()
        }),
    decreases s.len(),
{
    if s.len() == 0 {
        let t = s.push(x);
        assert(t.len() == 1);
        assert(t[0] == x);
        assert(t.first() == x);
        assert(t.drop_first() =~= Seq::<CalItemView>::empty());
        assert(key_filter(t.drop_first(), k) == Seq::<CalItemView>::empty());
        assert(key_filter(s, k) == Seq::<CalItemView>::empty());
        if item_key(x) == k {
            assert(key_filter(t, k) == seq![x] + Seq::<CalItemView>::empty());
            assert(key_filter(t, k) =~= key_filter(s, k) + seq![x]);
        } else {
            assert(key_filter(t, k) =~= key_filter(s, k));
        }
    } else {
        assert(s.push(x).drop_first() =~= s.drop_first().push(x));
        assert(s.push(x).first() == s.first());
        lemma_key_filter_push(s.drop_first(), x, k);
        if item_key(s.first()) == k {
            assert(key_filter(s.push(x), k) =~= key_filter(s, k) + (if item_key(x) == k {
                seq![x]
            } else {
                Seq::<CalItemView>::empty()
            }));
        } else {
            assert(key_filter(s.push(x), k) =~= key_filter(s, k) + (if item_key(x) == k {
                seq![x]
            } else {
                Seq::<CalItemView>::empty()
            }));
        }
    }
}

proof fn lemma_key_filter_absent(s: Seq<CalItemView>, k: Seq<char>)
    requires
        forall|i: int| 0 <= i < s.len() ==> item_key(#[trigger] s[i]) != k,
    ensures
        key_filter(s, k) == Seq::<CalItemView>::empty(),
    decreases s.len(),
{
    if s.len() > 0 {
        assert(item_key(s[0]) != k);
        assert forall|i: int| 0 <= i < s.drop_first().len() implies item_key(
            #[trigger] s.drop_first()[i],
        ) != k by {
            assert(s.drop_first()[i] == s[i + 1]);
        }
        lemma_key_filter_absent(s.drop_first(), k);
    }
}

/// Inserting preserves order, adds exactly the new item, and appends it after
/// its date's equals.
proof fn lemma_insert_props(sorted: Seq<CalItemView>, x: CalItemView, k: Seq<char>)
    requires
        date_sorted(sorted),
    ensures
        date_sorted(spec_insert_by_date(sorted, x)),
        spec_insert_by_date(sorted, x).to_multiset() =~= sorted.to_multiset().insert(x),
        spec_insert_by_date(sorted, x).len() == sorted.len() + 1,
        key_filter(spec_insert_by_date(sorted, x), k) == key_filter(sorted, k) + (if item_key(x)
            == k {
            seq![x]
        } else {
            Seq::<CalItemView>::empty()
        }),
    decreases sorted.len(),
{
    broadcast use vstd::seq_lib::group_to_multiset_ensures;

    let res = spec_insert_by_date(sorted, x);
    if sorted.len() == 0 {
        assert(res =~= Seq::<CalItemView>::empty().push(x));
        assert(res.len() == 1);
        assert(res.first() == x);
        assert(res.drop_first() =~= Seq::<CalItemView>::empty());
        assert(key_filter(res.drop_first(), k) == Seq::<CalItemView>::empty());
        assert(key_filter(sorted, k) == Seq::<CalItemView>::empty());
        if item_key(x) == k {
            assert(key_filter(res, k) == seq![x] + Seq::<CalItemView>::empty());
            assert(key_filter(res, k) =~= key_filter(sorted, k) + seq![x]);
        } else {
            assert(key_filter(res, k) =~= key_filter(sorted, k));
        }
    } else {
        let s0 = sorted.first();
        let rest = sorted.drop_first();
        assert(sorted =~= seq![s0] + rest);
        assert(sorted =~= rest.insert(0, s0));
        assert forall|i: int, j: int| 0 <= i < j < rest.len() implies lex_leq(
            item_key(#[trigger] rest[i]),
            item_key(#[trigger] rest[j]),
        ) by {
            assert(rest[i] == sorted[i + 1]);
            assert(rest[j] == sorted[j + 1]);
        }
        if lex_leq(item_key(s0), item_key(x)) {
            lemma_insert_props(rest, x, k);
            let inner = spec_insert_by_date(rest, x);
            assert(res == seq![s0] + inner);
            // Order: the head is below the old tail and below `x`, hence below
            // everything in the inserted tail.
            assert forall|i: int, j: int| 0 <= i < j < res.len() implies lex_leq(
                item_key(#[trigger] res[i]),
                item_key(#[trigger] res[j]),
            ) by {
                if i == 0 {
                    let e = res[j];
                    assert(inner[j - 1] == e);
                    assert(inner.to_multiset().contains(e));
                    if e == x {
                        assert(lex_leq(item_key(s0), item_key(e)));
                    } else {
                        assert(rest.to_multiset().contains(e));
                        let q = choose|q: int| 0 <= q < rest.len() && rest[q] == e;
                        assert(sorted[q + 1] == e);
                        assert(lex_leq(item_key(s0), item_key(e)));
                    }
                } else {
                    assert(inner[i - 1] == res[i] && inner[j - 1] == res[j]);
                }
            }
            // Multiset: head plus inserted tail.
            vstd::seq_lib::lemma_multiset_commutative(seq![s0], inner);
            vstd::seq_lib::lemma_multiset_commutative(seq![s0], rest);
            assert(seq![s0].to_multiset() =~= Multiset::<CalItemView>::empty().insert(s0)) by {
                assert(seq![s0] =~= Seq::<CalItemView>::empty().push(s0));
            }
            assert(res.to_multiset() =~= sorted.to_multiset().insert(x));
            // Stability: the filter distributes over the head.
            assert(res.first() == s0 && res.drop_first() =~= inner);
            if item_key(s0) == k {
                assert(key_filter(res, k) =~= key_filter(sorted, k) + (if item_key(x) == k {
                    seq![x]
                } else {
                    Seq::<CalItemView>::empty()
                }));
            } else {
                assert(key_filter(res, k) =~= key_filter(sorted, k) + (if item_key(x) == k {
                    seq![x]
                } else {
                    Seq::<CalItemView>::empty()
                }));
            }
        } else {
            assert(res == seq![x] + sorted);
            lemma_lex_total(item_key(s0), item_key(x));
            assert(lex_leq(item_key(x), item_key(s0)));
            assert forall|i: int, j: int| 0 <= i < j < res.len() implies lex_leq(
                item_key(#[trigger] res[i]),
                item_key(#[trigger] res[j]),
            ) by {
                if i == 0 {
                    assert(res[j] == sorted[j - 1]);
                    if j > 1 {
                        lemma_lex_trans(item_key(x), item_key(s0), item_key(sorted[j - 1]));
                    }
                } else {
                    assert(res[i] == sorted[i - 1] && res[j] == sorted[j - 1]);
                }
            }
            vstd::seq_lib::lemma_multiset_commutative(seq![x], sorted);
            assert(seq![x].to_multiset() =~= Multiset::<CalItemView>::empty().insert(x)) by {
                assert(seq![x] =~= Seq::<CalItemView>::empty().push(x));
            }
            assert(res.to_multiset() =~= sorted.to_multiset().insert(x));
            // Stability: if `x` carries date `k`, nothing in the tail does,
            // because everything there is strictly above `x`'s key.
            assert(res.first() == x && res.drop_first() =~= sorted);
            if item_key(x) == k {
                assert forall|i: int| 0 <= i < sorted.len() implies item_key(
                    #[trigger] sorted[i],
                ) != k by {
                    if item_key(sorted[i]) == k {
                        if i > 0 {
                            assert(lex_leq(item_key(s0), item_key(sorted[i])));
                        }
                        assert(lex_leq(item_key(s0), k));
                        assert(false);
                    }
                }
                lemma_key_filter_absent(sorted, k);
                assert(key_filter(res, k) =~= key_filter(sorted, k) + seq![x]);
            } else {
                assert(key_filter(res, k) =~= key_filter(sorted, k));
            }
        }
    }
}

/// The sorted result is ordered by date, is a permutation of the input, and
/// keeps items of equal date in their original order: together these pin the
/// result down completely.
pub proof fn lemma_sort_by_date_props(s: Seq<CalItemView>, k: Seq<char>)
    ensures
        date_sorted(spec_sort_by_date(s)),
        spec_sort_by_date(s).to_multiset() =~= s.to_multiset(),
        spec_sort_by_date(s).len() == s.len(),
        key_filter(spec_sort_by_date(s), k) == key_filter(s, k),
    decreases s.len(),
{
    broadcast use vstd::seq_lib::group_to_multiset_ensures;

    if s.len() > 0 {
        lemma_sort_by_date_props(s.drop_last(), k);
        lemma_insert_props(spec_sort_by_date(s.drop_last()), s.last(), k);
        assert(s =~= s.drop_last().push(s.last()));
        lemma_key_filter_push(s.drop_last(), s.last(), k);
    }
}

/// Splits an insertion at any point that is below the new item's key.
proof fn lemma_insert_split(sorted: Seq<CalItemView>, x: CalItemView, p: int)
    requires
        0 <= p <= sorted.len(),
        forall|q: int| 0 <= q < p ==> lex_leq(item_key(#[trigger] sorted[q]), item_key(x)),
    ensures
        spec_insert_by_date(sorted, x) == sorted.take(p) + spec_insert_by_date(
            sorted.skip(p),
            x,
        ),
    decreases p,
{
    if p == 0 {
        assert(sorted.take(0) =~= Seq::<CalItemView>::empty());
        assert(sorted.skip(0) =~= sorted);
        assert(spec_insert_by_date(sorted, x) =~= sorted.take(0) + spec_insert_by_date(
            sorted.skip(0),
            x,
        ));
    } else {
        let rest = sorted.drop_first();
        assert(lex_leq(item_key(sorted[0]), item_key(x)));
        assert forall|q: int| 0 <= q < p - 1 implies lex_leq(
            item_key(#[trigger] rest[q]),
            item_key(x),
        ) by {
            assert(rest[q] == sorted[q + 1]);
        }
        lemma_insert_split(rest, x, p - 1);
        assert(rest.take(p - 1) =~= sorted.take(p).drop_first());
        assert(rest.skip(p - 1) =~= sorted.skip(p));
        assert(seq![sorted.first()] + rest.take(p - 1) =~= sorted.take(p));
        assert(spec_insert_by_date(sorted, x) =~= sorted.take(p) + spec_insert_by_date(
            sorted.skip(p),
            x,
        ));
    }
}

/// Sorts the reconciler's merged items by date, ascending, keeping items of
/// equal date in their original order.
pub fn sort_items_by_date(items: &Vec<CalItem>) -> (r: Vec<CalItem>)
    ensures
        r@.map_values(|i: CalItem| i@) == spec_sort_by_date(items@.map_values(|i: CalItem| i@)),
{
    let ghost iv = items@.map_values(|i: CalItem| i@);
    let mut r: Vec<CalItem> = Vec::new();
    let n = items.len();
    let mut j: usize = 0;
    while j < n
        invariant
            j <= n,
            n == items@.len(),
            iv == items@.map_values(|i: CalItem| i@),
            r@.map_values(|i: CalItem| i@) == spec_sort_by_date(iv.take(j as int)),
            date_sorted(r@.map_values(|i: CalItem| i@)),
        decreases n - j,
    {
        let ghost rv = r@.map_values(|i: CalItem| i@);
        let it = clone_item(&items[j]);
        let key: String = item_key_of(&it).to_owned();
        let rl = r.len();
        let mut p: usize = 0;
        while p < rl && str_lex_leq(item_key_of(&r[p]), key.as_str())
            invariant
                p <= rl,
                rl == r@.len(),
                key@ == item_key(it@),
                rv == r@.map_values(|i: CalItem| i@),
                forall|q: int|
                    0 <= q < p ==> lex_leq(item_key(#[trigger] rv[q]), item_key(it@)),
            decreases rl - p,
        {
            p += 1;
        }
        proof {
            lemma_insert_split(rv, it@, p as int);
            if p < rl {
                assert(rv.skip(p as int)[0] == rv[p as int]);
                assert(!lex_leq(item_key(rv.skip(p as int).first()), item_key(it@)));
                assert(spec_insert_by_date(rv.skip(p as int), it@) == seq![it@] + rv.skip(
                    p as int,
                ));
            } else {
                assert(rv.skip(p as int) =~= Seq::<CalItemView>::empty());
            }
        }
        let ghost itv = it@;
        r.insert(p, it);
        proof {
            assert(r@.map_values(|i: CalItem| i@) =~= rv.insert(p as int, itv));
            assert(rv.insert(p as int, itv) =~= rv.take(p as int) + seq![itv] + rv.skip(
                p as int,
            ));
            assert(rv.take(p as int) + spec_insert_by_date(rv.skip(p as int), itv) =~= rv.take(
                p as int,
            ) + seq![itv] + rv.skip(p as int));
            assert(iv.take(j + 1).drop_last() =~= iv.take(j as int));
            assert(iv.take(j + 1).last() == iv[j as int]);
            assert(r@.map_values(|i: CalItem| i@) == spec_sort_by_date(iv.take(j + 1)));
            lemma_sort_by_date_props(iv.take(j + 1), Seq::empty());
        }
        j += 1;
    }
    proof {
        assert(iv.take(n as int) =~= iv);
    }
    r
}

} // verus!
