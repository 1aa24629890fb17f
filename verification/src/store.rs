//! The key-value store underlying every cache table.
//!
//! Each logical table of the persistence layer (media details, list/API
//! responses, user data, configuration) is a set of rows keyed by a string,
//! each row carrying an opaque payload and two timestamps. The abstraction is
//! a `Map` from the key's characters to the row contents; the policy layer is
//! specified entirely against that map. Durability (mirroring the rows to
//! disk) is the surrounding application's concern.

use vstd::prelude::*;

verus! {

/// One stored row: an opaque serialized payload plus its write time and its
/// hard expiry time, both in milliseconds since the Unix epoch.
pub struct CacheRow {
    pub key: String,
    pub payload: String,
    pub updated_at: i64,
    pub expires_at: i64,
}

/// The mathematical content of one row.
pub ghost struct RowView {
    pub payload: Seq<char>,
    pub updated_at: int,
    pub expires_at: int,
}

impl View for CacheRow {
    type V = RowView;

    open spec fn view(&self) -> RowView {
        RowView {
            payload: self.payload@,
            updated_at: self.updated_at as int,
            expires_at: self.expires_at as int,
        }
    }
}

/// The map described by a sequence of rows; later rows win, though a
/// well-formed table never repeats a key.
spec fn rows_map(s: Seq<CacheRow>) -> Map<Seq<char>, RowView>
    decreases s.len(),
{
    if s.len() == 0 {
        Map::empty()
    } else {
        rows_map(s.drop_last()).insert(s.last().key@, s.last()@)
    }
}

/// Every key of the map comes from some row, and conversely.
proof fn lemma_rows_map_domain(s: Seq<CacheRow>, k: Seq<char>)
    ensures
        rows_map(s).contains_key(k) <==> exists|i: int| 0 <= i < s.len() && s[i].key@ == k,
    decreases s.len(),
{
    if s.len() > 0 {
        lemma_rows_map_domain(s.drop_last(), k);
        if rows_map(s).contains_key(k) {
            if s.last().key@ == k {
                assert(s[s.len() - 1].key@ == k);
            } else {
                let i = choose|i: int| 0 <= i < s.drop_last().len() && s.drop_last()[i].key@ == k;
                assert(s[i].key@ == k);
            }
        }
        if exists|i: int| 0 <= i < s.len() && s[i].key@ == k {
            let i = choose|i: int| 0 <= i < s.len() && s[i].key@ == k;
            if i < s.len() - 1 {
                assert(s.drop_last()[i].key@ == k);
            }
        }
    }
}

/// In a table without repeated keys, each row is what the map stores for its
/// key.
proof fn lemma_rows_map_index(s: Seq<CacheRow>, i: int)
    requires
        forall|p: int, q: int|
            0 <= p < q < s.len() ==> s[p].key@ != s[q].key@,
        0 <= i < s.len(),
    ensures
        rows_map(s).contains_key(s[i].key@),
        rows_map(s)[s[i].key@] == s[i]@,
    decreases s.len(),
{
    lemma_rows_map_domain(s, s[i].key@);
    if i < s.len() - 1 {
        assert(s.last().key@ != s[i].key@);
        assert(s.drop_last()[i] == s[i]);
        lemma_rows_map_index(s.drop_last(), i);
    }
}

/// Updating the row at one index updates the map at that row's key.
proof fn lemma_rows_map_update(s: Seq<CacheRow>, i: int, r: CacheRow)
    requires
        forall|p: int, q: int|
            0 <= p < q < s.len() ==> s[p].key@ != s[q].key@,
        0 <= i < s.len(),
        r.key@ == s[i].key@,
    ensures
        rows_map(s.update(i, r)) =~= rows_map(s).insert(r.key@, r@),
    decreases s.len(),
{
    let t = s.update(i, r);
    if i == s.len() - 1 {
        assert(t.drop_last() =~= s.drop_last());
        assert(t.last() == r);
    } else {
        lemma_rows_map_update(s.drop_last(), i, r);
        assert(t.drop_last() =~= s.drop_last().update(i, r));
        assert(t.last() == s.last());
        assert(s.last().key@ != r.key@);
        assert(rows_map(t) =~= rows_map(s.drop_last()).insert(r.key@, r@).insert(
            s.last().key@,
            s.last()@,
        ));
    }
}

/// Appending a row with a new key inserts it into the map.
proof fn lemma_rows_map_push(s: Seq<CacheRow>, r: CacheRow)
    ensures
        rows_map(s.push(r)) =~= rows_map(s).insert(r.key@, r@),
{
    assert(s.push(r).drop_last() =~= s);
    assert(s.push(r).last() == r);
}

/// Removing the row at one index removes that row's key from the map.
proof fn lemma_rows_map_remove(s: Seq<CacheRow>, i: int)
    requires
        forall|p: int, q: int|
            0 <= p < q < s.len() ==> s[p].key@ != s[q].key@,
        0 <= i < s.len(),
    ensures
        rows_map(s.remove(i)) =~= rows_map(s).remove(s[i].key@),
    decreases s.len(),
{
    let t = s.remove(i);
    lemma_rows_map_domain(s.drop_last(), s[i].key@);
    if i == s.len() - 1 {
        assert(t =~= s.drop_last());
        assert(!rows_map(s.drop_last()).contains_key(s[i].key@));
    } else {
        lemma_rows_map_remove(s.drop_last(), i);
        assert(t.drop_last() =~= s.drop_last().remove(i));
        assert(t.last() == s.last());
        assert(s.last().key@ != s[i].key@);
        assert(rows_map(t) =~= rows_map(s.drop_last()).remove(s[i].key@).insert(
            s.last().key@,
            s.last()@,
        ));
    }
}

/// One table of the store.
pub struct KvTable {
    rows: Vec<CacheRow>,
}

impl View for KvTable {
    type V = Map<Seq<char>, RowView>;

    closed spec fn view(&self) -> Map<Seq<char>, RowView> {
        rows_map(self.rows@)
    }
}

impl KvTable {
    /// No two rows share a key.
    pub closed spec fn wf(&self) -> bool {
        forall|p: int, q: int|
            0 <= p < q < self.rows@.len() ==> self.rows@[p].key@ != self.rows@[q].key@
    }

    pub fn new() -> (t: KvTable)
        ensures
            t.wf(),
            t@ == Map::<Seq<char>, RowView>::empty(),
    {
        KvTable { rows: Vec::new() }
    }

    /// The position of the row with this key, if any.
    fn find(&self, key: &str) -> (r: Option<usize>)
        requires
            self.wf(),
        ensures
            match r {
                Some(i) => i < self.rows@.len() && self.rows@[i as int].key@ == key@,
                None => !self@.contains_key(key@),
            },
    {
        let owned: String = key.to_owned();
        let n = self.rows.len();
        let mut i: usize = 0;
        while i < n
            invariant
                n == self.rows@.len(),
                i <= n,
                owned@ == key@,
                forall|j: int| 0 <= j < i ==> self.rows@[j].key@ != key@,
            decreases n - i,
        {
            if self.rows[i].key == owned {
                return Some(i);
            }
            i += 1;
        }
        proof {
            lemma_rows_map_domain(self.rows@, key@);
        }
        None
    }

    /// Read the row stored under a key.
    pub fn get(&self, key: &str) -> (r: Option<&CacheRow>)
        requires
            self.wf(),
        ensures
            match r {
                Some(row) => self@.contains_key(key@) && row@ == self@[key@] && row.key@ == key@,
                None => !self@.contains_key(key@),
            },
    {
        match self.find(key) {
            Some(i) => {
                proof {
                    lemma_rows_map_index(self.rows@, i as int);
                }
                Some(&self.rows[i])
            }
            None => None,
        }
    }

    /// Write a row, replacing any row already stored under the key.
    pub fn upsert(&mut self, key: &str, payload: String, updated_at: i64, expires_at: i64)
        requires
            old(self).wf(),
        ensures
            final(self).wf(),
            final(self)@ == old(self)@.insert(
                key@,
                RowView {
                    payload: payload@,
                    updated_at: updated_at as int,
                    expires_at: expires_at as int,
                },
            ),
    {
        let row = CacheRow { key: key.to_owned(), payload, updated_at, expires_at };
        let ghost rv = row@;
        match self.find(key) {
            Some(i) => {
                proof {
                    lemma_rows_map_update(self.rows@, i as int, row);
                }
                self.rows[i] = row;
                proof {
                    assert(self.rows@ =~= old(self).rows@.update(i as int, row));
                    assert forall|p: int, q: int|
                        0 <= p < q < self.rows@.len() implies self.rows@[p].key@
                        != self.rows@[q].key@ by {
                        assert(old(self).rows@[p].key@ != old(self).rows@[q].key@);
                    }
                    assert(self@ =~= old(self)@.insert(key@, rv));
                }
            }
            None => {
                proof {
                    lemma_rows_map_push(self.rows@, row);
                    lemma_rows_map_domain(self.rows@, row.key@);
                }
                self.rows.push(row);
                proof {
                    assert forall|p: int, q: int|
                        0 <= p < q < self.rows@.len() implies self.rows@[p].key@
                        != self.rows@[q].key@ by {
                        if q < self.rows@.len() - 1 {
                            assert(old(self).rows@[p].key@ != old(self).rows@[q].key@);
                        } else {
                            lemma_rows_map_domain(old(self).rows@, old(self).rows@[p].key@);
                        }
                    }
                    assert(self@ =~= old(self)@.insert(key@, rv));
                }
            }
        }
    }

    /// Remove the row stored under a key, if any.
    pub fn delete(&mut self, key: &str)
        requires
            old(self).wf(),
        ensures
            final(self).wf(),
            final(self)@ == old(self)@.remove(key@),
    {
        match self.find(key) {
            Some(i) => {
                proof {
                    lemma_rows_map_remove(self.rows@, i as int);
                }
                self.rows.remove(i);
                proof {
                    assert forall|p: int, q: int|
                        0 <= p < q < self.rows@.len() implies self.rows@[p].key@
                        != self.rows@[q].key@ by {
                        let s1 = old(self).rows@;
                        let pp = if p < i as int { p } else { p + 1 };
                        let qq = if q < i as int { q } else { q + 1 };
                        assert(s1[pp].key@ != s1[qq].key@);
                    }
                    assert(self@ =~= old(self)@.remove(key@));
                }
            }
            None => {
                proof {
                    assert(self@ =~= old(self)@.remove(key@));
                }
            }
        }
    }

}


/// A well-formed table describes as many keys as it has rows.
proof fn lemma_rows_map_len(s: Seq<CacheRow>)
    requires
        forall|p: int, q: int|
            0 <= p < q < s.len() ==> s[p].key@ != s[q].key@,
    ensures
        rows_map(s).dom().finite(),
        rows_map(s).dom().len() == s.len(),
    decreases s.len(),
{
    if s.len() > 0 {
        lemma_rows_map_len(s.drop_last());
        lemma_rows_map_domain(s.drop_last(), s.last().key@);
        assert(!rows_map(s.drop_last()).dom().contains(s.last().key@));
        assert(rows_map(s).dom() =~= rows_map(s.drop_last()).dom().insert(s.last().key@));
    }
}

impl KvTable {
    /// The table's keys are a finite set.
    pub proof fn lemma_dom_finite(&self)
        requires
            self.wf(),
        ensures
            self@.dom().finite(),
    {
        lemma_rows_map_len(self.rows@);
    }

    /// Every key of the table, each exactly once.
    pub fn keys(&self) -> (ks: Vec<String>)
        requires
            self.wf(),
        ensures
            ks@.map_values(|k: String| k@).no_duplicates(),
            ks@.len() == self@.dom().len(),
            forall|i: int| 0 <= i < ks@.len() ==> self@.contains_key(#[trigger] ks@[i]@),
            forall|k: Seq<char>|
                self@.contains_key(k) ==> exists|i: int| 0 <= i < ks@.len() && #[trigger] ks@[i]@
                    == k,
    {
        proof {
            lemma_rows_map_len(self.rows@);
        }
        let n = self.rows.len();
        let mut ks: Vec<String> = Vec::new();
        let mut i: usize = 0;
        while i < n
            invariant
                i <= n,
                n == self.rows@.len(),
                self.wf(),
                ks@.len() == i,
                forall|j: int| 0 <= j < i ==> #[trigger] ks@[j]@ == self.rows@[j].key@,
            decreases n - i,
        {
            ks.push(self.rows[i].key.clone());
            i += 1;
        }
        proof {
            assert forall|i1: int| 0 <= i1 < ks@.len() implies self@.contains_key(
                #[trigger] ks@[i1]@,
            ) by {
                lemma_rows_map_index(self.rows@, i1);
            }
            assert forall|k: Seq<char>| self@.contains_key(k) implies exists|i1: int|
                0 <= i1 < ks@.len() && #[trigger] ks@[i1]@ == k by {
                lemma_rows_map_domain(self.rows@, k);
                let j = choose|j: int| 0 <= j < self.rows@.len() && self.rows@[j].key@ == k;
                assert(ks@[j]@ == k);
            }
            assert(ks@.map_values(|k: String| k@).no_duplicates()) by {
                let kv = ks@.map_values(|k: String| k@);
                assert forall|p: int, q: int|
                    0 <= p < q < kv.len() implies #[trigger] kv[p] != #[trigger] kv[q] by {
                    assert(self.rows@[p].key@ != self.rows@[q].key@);
                }
            }
        }
        ks
    }
}

} // verus!
