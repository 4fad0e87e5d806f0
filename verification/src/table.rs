//! An ordered table: entries kept in ascending key order, one entry per key.
//!
//! The view of a table is the sequence of its entries, each a pair of the
//! key's view and the value's view, in the order in which the table lists
//! them. [`entries_map`] reads the same entries as a map from key to value.

use crate::keys::Key;
use vstd::prelude::*;

verus! {

/// The keys of `s` are strictly ascending, so no key occurs twice.
pub open spec fn ascending<K: Key, B>(s: Seq<(K::V, B)>) -> bool {
    forall|i: int, j: int|
        0 <= i < j < s.len() ==> K::precedes(#[trigger] s[i].0, #[trigger] s[j].0)
}

/// Whether some entry of `s` has the key `k`.
pub open spec fn has_key<A, B>(s: Seq<(A, B)>, k: A) -> bool {
    exists|i: int| 0 <= i < s.len() && (#[trigger] s[i]).0 == k
}

/// The position of one entry of `s` with the key `k`.
pub open spec fn index_of<A, B>(s: Seq<(A, B)>, k: A) -> int {
    choose|i: int| 0 <= i < s.len() && (#[trigger] s[i]).0 == k
}

/// The entries of `s` as a map from key to value.
pub open spec fn entries_map<A, B>(s: Seq<(A, B)>) -> Map<A, B> {
    Map::new(|k: A| has_key(s, k), |k: A| s[index_of(s, k)].1)
}

/// The values of `s`, in its order.
pub open spec fn values<A, B>(s: Seq<(A, B)>) -> Seq<B> {
    s.map_values(|e: (A, B)| e.1)
}

/// In an ascending sequence a key has one position only.
pub proof fn lemma_one_position<K: Key, B>(s: Seq<(K::V, B)>, i: int, j: int)
    requires
        ascending::<K, B>(s),
        0 <= i < s.len(),
        0 <= j < s.len(),
        s[i].0 == s[j].0,
    ensures
        i == j,
{
    K::lemma_order(s[i].0, s[i].0, s[i].0);
}

/// Each entry of an ascending sequence is what the map holds under its key.
pub proof fn lemma_map_at<K: Key, B>(s: Seq<(K::V, B)>, i: int)
    requires
        ascending::<K, B>(s),
        0 <= i < s.len(),
    ensures
        entries_map(s).contains_key(s[i].0),
        entries_map(s)[s[i].0] == s[i].1,
        index_of(s, s[i].0) == i,
{
    let k = s[i].0;
    assert(has_key(s, k));
    lemma_one_position::<K, B>(s, i, index_of(s, k));
}

/// Two ascending sequences that hold the same map are the same sequence: the
/// map of a table says in which order the table lists its entries.
pub proof fn lemma_order_is_unique<K: Key, B>(a: Seq<(K::V, B)>, b: Seq<(K::V, B)>)
    requires
        ascending::<K, B>(a),
        ascending::<K, B>(b),
        entries_map(a) == entries_map(b),
    ensures
        a == b,
    decreases a.len(),
{
    if a.len() == 0 {
        if b.len() > 0 {
            lemma_map_at::<K, B>(b, 0);
            assert(has_key(a, b[0].0));
        }
        assert(a =~= b);
    } else {
        let n = a.len() - 1;
        lemma_map_at::<K, B>(a, n);
        assert(has_key(b, a[n].0));
        let m = index_of(b, a[n].0);
        lemma_map_at::<K, B>(b, m);
        if m < b.len() - 1 {
            // the last key of b comes after the last key of a, but occurs in a
            let last = b.len() - 1;
            lemma_map_at::<K, B>(b, last);
            assert(has_key(a, b[last].0));
            let p = index_of(a, b[last].0);
            K::lemma_order(a[p].0, a[n].0, b[last].0);
            K::lemma_order(a[n].0, b[last].0, a[n].0);
            assert(false);
        }
        let a0 = a.drop_last();
        let b0 = b.drop_last();
        assert(ascending::<K, B>(a0));
        assert(ascending::<K, B>(b0));
        assert forall|k: K::V| has_key(a0, k) <==> has_key(b0, k) by {
            if has_key(a0, k) {
                let i = index_of(a0, k);
                assert(a0[i] == a[i]);
                lemma_map_at::<K, B>(a, i);
                assert(has_key(b, k));
                let j = index_of(b, k);
                lemma_one_position::<K, B>(a, i, if j == m { n } else { i });
                assert(b0[j] == b[j]);
            }
            if has_key(b0, k) {
                let j = index_of(b0, k);
                assert(b0[j] == b[j]);
                lemma_map_at::<K, B>(b, j);
                assert(has_key(a, k));
                let i = index_of(a, k);
                lemma_one_position::<K, B>(b, j, if i == n { m } else { j });
                assert(a0[i] == a[i]);
            }
        }
        assert forall|k: K::V| has_key(a0, k) implies entries_map(a0)[k] == entries_map(b0)[k] by {
            let i = index_of(a0, k);
            let j = index_of(b0, k);
            assert(a0[i] == a[i]);
            assert(b0[j] == b[j]);
            lemma_map_at::<K, B>(a, i);
            lemma_map_at::<K, B>(b, j);
        }
        assert(entries_map(a0) =~= entries_map(b0));
        lemma_order_is_unique::<K, B>(a0, b0);
        assert(a =~= a0.push(a[n]));
        assert(b =~= b0.push(b[m]));
    }
}

/// An ascending sequence has as many entries as its map has keys.
pub proof fn lemma_count<K: Key, B>(s: Seq<(K::V, B)>)
    requires
        ascending::<K, B>(s),
    ensures
        entries_map(s).dom().finite(),
        entries_map(s).dom().len() == s.len(),
    decreases s.len(),
{
    if s.len() == 0 {
        assert(entries_map(s).dom() =~= Set::<K::V>::empty());
    } else {
        let n = s.len() - 1;
        let rest = s.drop_last();
        assert(ascending::<K, B>(rest));
        assert(s =~= rest.insert(n, s[n]));
        assert forall|j: int| 0 <= j < n implies K::precedes(#[trigger] rest[j].0, s[n].0) by {
            assert(rest[j] == s[j]);
        }
        lemma_absent::<K, B>(rest, n, s[n].0);
        lemma_insert_map::<K, B>(rest, n, s[n].0, s[n].1);
        lemma_count::<K, B>(rest);
        assert(entries_map(s).dom() =~= entries_map(rest).dom().insert(s[n].0));
    }
}

/// An ordered table from keys to values.
pub struct Table<K, V> {
    entries: Vec<(K, V)>,
}

impl<K: Key, V: View> View for Table<K, V> {
    type V = Seq<(K::V, V::V)>;

    closed spec fn view(&self) -> Seq<(K::V, V::V)> {
        self.entries@.map_values(|e: (K, V)| (e.0@, e.1@))
    }
}

impl<K: Key, V: View> Table<K, V> {
    /// The table lists its keys in strictly ascending order.
    pub open spec fn wf(&self) -> bool {
        ascending::<K, V::V>(self@)
    }

    /// The table as a map from key to value.
    pub open spec fn map(&self) -> Map<K::V, V::V> {
        entries_map(self@)
    }

    /// The empty table.
    pub fn new() -> (t: Self)
        ensures
            t@ == Seq::<(K::V, V::V)>::empty(),
            t.wf(),
    {
        let t = Table { entries: Vec::new() };
        assert(t@ =~= Seq::<(K::V, V::V)>::empty());
        t
    }

    /// The number of entries.
    pub fn len(&self) -> (n: usize)
        ensures
            n == self@.len(),
    {
        self.entries.len()
    }

    /// The key of the entry at position `i`.
    pub fn key_at(&self, i: usize) -> (k: &K)
        requires
            i < self@.len(),
        ensures
            k@ == self@[i as int].0,
    {
        &self.entries[i].0
    }

    /// The value of the entry at position `i`.
    pub fn value_at(&self, i: usize) -> (v: &V)
        requires
            i < self@.len(),
        ensures
            v@ == self@[i as int].1,
    {
        &self.entries[i].1
    }

    /// The number of keys that come before `key`: the position at which `key`
    /// stands, or would stand.
    fn slot(&self, key: &K) -> (pos: usize)
        requires
            self.wf(),
        ensures
            pos <= self@.len(),
            forall|j: int| 0 <= j < pos ==> K::precedes(#[trigger] self@[j].0, key@),
            forall|j: int| pos <= j < self@.len() ==> !K::precedes(#[trigger] self@[j].0, key@),
    {
        let mut lo: usize = 0;
        let mut hi: usize = self.entries.len();
        while lo < hi
            invariant
                self.wf(),
                lo <= hi <= self@.len(),
                self@.len() == self.entries@.len(),
                forall|j: int| 0 <= j < lo ==> K::precedes(#[trigger] self@[j].0, key@),
                forall|j: int| hi <= j < self@.len() ==> !K::precedes(#[trigger] self@[j].0, key@),
            decreases hi - lo,
        {
            let mid = lo + (hi - lo) / 2;
            if self.entries[mid].0.less_than(key) {
                assert forall|j: int| 0 <= j < mid + 1 implies K::precedes(
                    #[trigger] self@[j].0,
                    key@,
                ) by {
                    K::lemma_order(self@[j].0, self@[mid as int].0, key@);
                }
                lo = mid + 1;
            } else {
                assert forall|j: int| mid <= j < self@.len() implies !K::precedes(
                    #[trigger] self@[j].0,
                    key@,
                ) by {
                    K::lemma_order(self@[mid as int].0, self@[j].0, key@);
                }
                hi = mid;
            }
        }
        lo
    }

    /// The position of the entry with the key `key`, if the table has one.
    pub fn find(&self, key: &K) -> (r: Option<usize>)
        requires
            self.wf(),
        ensures
            r is Some <==> self.map().contains_key(key@),
            r matches Some(i) ==> i < self@.len() && self@[i as int].0 == key@ && self.map()[key@]
                == self@[i as int].1,
    {
        let pos = self.slot(key);
        if pos < self.entries.len() && !key.less_than(&self.entries[pos].0) {
            proof {
                K::lemma_order(self@[pos as int].0, key@, key@);
                lemma_map_at::<K, V::V>(self@, pos as int);
            }
            Some(pos)
        } else {
            proof {
                lemma_absent::<K, V::V>(self@, pos as int, key@);
            }
            None
        }
    }

    /// The value under `key`, if the table has one.
    pub fn get(&self, key: &K) -> (r: Option<&V>)
        requires
            self.wf(),
        ensures
            r is Some <==> self.map().contains_key(key@),
            r matches Some(v) ==> v@ == self.map()[key@],
    {
        match self.find(key) {
            Some(i) => Some(&self.entries[i].1),
            None => None,
        }
    }

    /// Whether the table has an entry under `key`.
    pub fn contains_key(&self, key: &K) -> (r: bool)
        requires
            self.wf(),
        ensures
            r == self.map().contains_key(key@),
    {
        self.find(key).is_some()
    }

    /// Puts `value` under `key`, in place of the value that `key` had, if any,
    /// and returns that value.
    pub fn insert(&mut self, key: K, value: V) -> (prev: Option<V>)
        requires
            old(self).wf(),
        ensures
            final(self).wf(),
            final(self).map() == old(self).map().insert(key@, value@),
            prev is Some <==> old(self).map().contains_key(key@),
            prev matches Some(p) ==> p@ == old(self).map()[key@],
            prev is Some ==> final(self)@.len() == old(self)@.len(),
            prev is None ==> final(self)@.len() == old(self)@.len() + 1,
    {
        let pos = self.slot(&key);
        let ghost before = self@;
        let ghost k = key@;
        let ghost v = value@;
        if pos < self.entries.len() && !key.less_than(&self.entries[pos].0) {
            proof {
                K::lemma_order(before[pos as int].0, k, k);
                lemma_map_at::<K, V::V>(before, pos as int);
            }
            let mut entry = (key, value);
            std::mem::swap(&mut self.entries[pos], &mut entry);
            proof {
                let after = self@;
                assert(after =~= before.update(pos as int, (k, v)));
                lemma_update_map::<K, V::V>(before, pos as int, v);
            }
            Some(entry.1)
        } else {
            proof {
                lemma_absent::<K, V::V>(before, pos as int, k);
            }
            self.entries.insert(pos, (key, value));
            proof {
                let after = self@;
                assert(after =~= before.insert(pos as int, (k, v)));
                lemma_insert_map::<K, V::V>(before, pos as int, k, v);
            }
            None
        }
    }

    /// Puts `value` in place of the value at position `i`, under the same key.
    pub fn replace_at(&mut self, i: usize, value: V) -> (prev: V)
        requires
            old(self).wf(),
            i < old(self)@.len(),
        ensures
            final(self).wf(),
            final(self)@ == old(self)@.update(i as int, (old(self)@[i as int].0, value@)),
            final(self).map() == old(self).map().insert(old(self)@[i as int].0, value@),
            prev@ == old(self)@[i as int].1,
    {
        let ghost before = self@;
        let ghost v = value@;
        let mut slot = value;
        std::mem::swap(&mut self.entries[i].1, &mut slot);
        proof {
            assert(self@ =~= before.update(i as int, (before[i as int].0, v)));
            lemma_update_map::<K, V::V>(before, i as int, v);
        }
        slot
    }

    /// Takes out the entry at position `i` and returns its value.
    pub fn remove_at(&mut self, i: usize) -> (prev: V)
        requires
            old(self).wf(),
            i < old(self)@.len(),
        ensures
            final(self).wf(),
            final(self)@ == old(self)@.remove(i as int),
            final(self).map() == old(self).map().remove(old(self)@[i as int].0),
            prev@ == old(self)@[i as int].1,
    {
        let ghost before = self@;
        let entry = self.entries.remove(i);
        proof {
            assert(self@ =~= before.remove(i as int));
            lemma_remove_map::<K, V::V>(before, i as int);
        }
        entry.1
    }

    /// Takes out the entry under `key`, if the table has one, and returns its
    /// value.
    pub fn remove(&mut self, key: &K) -> (prev: Option<V>)
        requires
            old(self).wf(),
        ensures
            final(self).wf(),
            final(self).map() == old(self).map().remove(key@),
            prev is Some <==> old(self).map().contains_key(key@),
            prev matches Some(p) ==> p@ == old(self).map()[key@],
            prev is None ==> final(self)@ == old(self)@,
    {
        match self.find(key) {
            Some(i) => Some(self.remove_at(i)),
            None => {
                assert(self.map() =~= self.map().remove(key@));
                None
            },
        }
    }
}

/// A key that comes before the entry at its slot, or whose slot is the end,
/// is not in the table, and comes before every entry from its slot on.
pub proof fn lemma_absent<K: Key, B>(s: Seq<(K::V, B)>, pos: int, k: K::V)
    requires
        ascending::<K, B>(s),
        0 <= pos <= s.len(),
        forall|j: int| 0 <= j < pos ==> K::precedes(#[trigger] s[j].0, k),
        pos < s.len() ==> K::precedes(k, s[pos].0),
    ensures
        !has_key(s, k),
        !entries_map(s).contains_key(k),
        forall|j: int| pos <= j < s.len() ==> K::precedes(k, #[trigger] s[j].0),
{
    assert forall|j: int| pos <= j < s.len() implies K::precedes(k, #[trigger] s[j].0) by {
        if j > pos {
            K::lemma_order(k, s[pos].0, s[j].0);
        }
    }
    if has_key(s, k) {
        let i = index_of(s, k);
        K::lemma_order(s[i].0, s[i].0, s[i].0);
    }
}

/// Replacing the value at one position keeps the order and updates the map.
pub proof fn lemma_update_map<K: Key, B>(s: Seq<(K::V, B)>, i: int, v: B)
    requires
        ascending::<K, B>(s),
        0 <= i < s.len(),
    ensures
        ascending::<K, B>(s.update(i, (s[i].0, v))),
        entries_map(s.update(i, (s[i].0, v))) == entries_map(s).insert(s[i].0, v),
{
    let t = s.update(i, (s[i].0, v));
    assert(t.len() == s.len());
    assert forall|a: int, b: int| 0 <= a < b < t.len() implies K::precedes(
        #[trigger] t[a].0,
        #[trigger] t[b].0,
    ) by {
        assert(t[a].0 == s[a].0);
        assert(t[b].0 == s[b].0);
    }
    assert forall|k: K::V| has_key(t, k) <==> has_key(s, k) by {
        if has_key(t, k) {
            let j = index_of(t, k);
            assert(s[j].0 == k);
        }
        if has_key(s, k) {
            let j = index_of(s, k);
            assert(t[j].0 == k);
        }
    }
    assert(has_key(s, s[i].0));
    assert forall|k: K::V| has_key(t, k) implies entries_map(t)[k] == entries_map(s).insert(
        s[i].0,
        v,
    )[k] by {
        let j = index_of(t, k);
        lemma_map_at::<K, B>(t, j);
        assert(s[j].0 == k);
        lemma_map_at::<K, B>(s, j);
        if j != i {
            lemma_one_position::<K, B>(s, i, if s[i].0 == k { j } else { i });
        }
    }
    assert(entries_map(t) =~= entries_map(s).insert(s[i].0, v));
}

/// Inserting a new key at its place keeps the order and extends the map.
pub proof fn lemma_insert_map<K: Key, B>(s: Seq<(K::V, B)>, pos: int, k: K::V, v: B)
    requires
        ascending::<K, B>(s),
        0 <= pos <= s.len(),
        forall|j: int| 0 <= j < pos ==> K::precedes(#[trigger] s[j].0, k),
        forall|j: int| pos <= j < s.len() ==> K::precedes(k, #[trigger] s[j].0),
    ensures
        ascending::<K, B>(s.insert(pos, (k, v))),
        entries_map(s.insert(pos, (k, v))) == entries_map(s).insert(k, v),
{
    let t = s.insert(pos, (k, v));
    assert forall|a: int, b: int| 0 <= a < b < t.len() implies K::precedes(
        #[trigger] t[a].0,
        #[trigger] t[b].0,
    ) by {
        if a < pos && b > pos {
            assert(t[a] == s[a]);
            assert(t[b] == s[b - 1]);
            K::lemma_order(s[a].0, k, s[b - 1].0);
        } else if a < pos && b == pos {
            assert(t[a] == s[a]);
        } else if a < pos {
            assert(t[a] == s[a]);
            assert(t[b] == s[b]);
        } else if a == pos {
            assert(t[b] == s[b - 1]);
        } else {
            assert(t[a] == s[a - 1]);
            assert(t[b] == s[b - 1]);
        }
    }
    assert(t[pos] == (k, v));
    assert forall|x: K::V| has_key(t, x) <==> (x == k || has_key(s, x)) by {
        if has_key(t, x) {
            let j = index_of(t, x);
            if j < pos {
                assert(s[j] == t[j]);
            } else if j > pos {
                assert(s[j - 1] == t[j]);
            }
        }
        if has_key(s, x) {
            let j = index_of(s, x);
            if j < pos {
                assert(t[j] == s[j]);
            } else {
                assert(t[j + 1] == s[j]);
            }
        }
    }
    assert forall|x: K::V| has_key(t, x) implies entries_map(t)[x] == entries_map(s).insert(
        k,
        v,
    )[x] by {
        let j = index_of(t, x);
        lemma_map_at::<K, B>(t, j);
        if j < pos {
            assert(s[j] == t[j]);
            lemma_map_at::<K, B>(s, j);
            K::lemma_order(x, k, x);
        } else if j > pos {
            assert(s[j - 1] == t[j]);
            lemma_map_at::<K, B>(s, j - 1);
            K::lemma_order(x, k, x);
        }
    }
    assert(entries_map(t) =~= entries_map(s).insert(k, v));
}

/// Removing one entry keeps the order and takes its key out of the map.
pub proof fn lemma_remove_map<K: Key, B>(s: Seq<(K::V, B)>, i: int)
    requires
        ascending::<K, B>(s),
        0 <= i < s.len(),
    ensures
        ascending::<K, B>(s.remove(i)),
        entries_map(s.remove(i)) == entries_map(s).remove(s[i].0),
{
    let t = s.remove(i);
    let k = s[i].0;
    assert forall|a: int, b: int| 0 <= a < b < t.len() implies K::precedes(
        #[trigger] t[a].0,
        #[trigger] t[b].0,
    ) by {
        let a0 = if a < i { a } else { a + 1 };
        let b0 = if b < i { b } else { b + 1 };
        assert(t[a] == s[a0]);
        assert(t[b] == s[b0]);
    }
    assert forall|x: K::V| has_key(t, x) <==> (x != k && has_key(s, x)) by {
        if has_key(t, x) {
            let j = index_of(t, x);
            let j0 = if j < i { j } else { j + 1 };
            assert(t[j] == s[j0]);
            lemma_one_position::<K, B>(s, j0, if x == k { i } else { j0 });
        }
        if x != k && has_key(s, x) {
            let j = index_of(s, x);
            let j1 = if j < i { j } else { j - 1 };
            assert(t[j1] == s[j]);
        }
    }
    assert forall|x: K::V| has_key(t, x) implies entries_map(t)[x] == entries_map(s)[x] by {
        let j = index_of(t, x);
        let j0 = if j < i { j } else { j + 1 };
        lemma_map_at::<K, B>(t, j);
        assert(t[j] == s[j0]);
        lemma_map_at::<K, B>(s, j0);
    }
    assert(entries_map(t) =~= entries_map(s).remove(k));
}

} // verus!
