use vstd::prelude::*;

verus! {

/// No key occurs twice among the entries.
pub open spec fn keys_distinct<V>(s: Seq<(Seq<char>, V)>) -> bool {
    forall|i: int, j: int|
        0 <= i < s.len() && 0 <= j < s.len() && i != j ==> #[trigger] s[i].0 != #[trigger] s[j].0
}

/// Some entry carries the key `k`.
pub open spec fn has_key<V>(s: Seq<(Seq<char>, V)>, k: Seq<char>) -> bool {
    exists|i: int| 0 <= i < s.len() && #[trigger] s[i].0 == k
}

/// The position of the entry that carries `k` (meaningful when `has_key(s, k)`).
pub open spec fn key_position<V>(s: Seq<(Seq<char>, V)>, k: Seq<char>) -> int {
    choose|i: int| 0 <= i < s.len() && #[trigger] s[i].0 == k
}

/// The value stored under `k`, if any.
pub open spec fn lookup<V>(s: Seq<(Seq<char>, V)>, k: Seq<char>) -> Option<V> {
    if has_key(s, k) {
        Some(s[key_position(s, k)].1)
    } else {
        None
    }
}

/// The entries after storing `v` under `k`: an existing entry is replaced in place,
/// a new key goes to the end.
pub open spec fn with_entry<V>(s: Seq<(Seq<char>, V)>, k: Seq<char>, v: V) -> Seq<(Seq<char>, V)> {
    if has_key(s, k) {
        s.update(key_position(s, k), (k, v))
    } else {
        s.push((k, v))
    }
}

/// The entries after removing the one that carries `k`, if there is one.
pub open spec fn without_key<V>(s: Seq<(Seq<char>, V)>, k: Seq<char>) -> Seq<(Seq<char>, V)> {
    if has_key(s, k) {
        s.remove(key_position(s, k))
    } else {
        s
    }
}

/// The keys of the entries, in order.
pub open spec fn keys_of<V>(s: Seq<(Seq<char>, V)>) -> Seq<Seq<char>> {
    s.map_values(|e: (Seq<char>, V)| e.0)
}

/// With distinct keys, the entry at position `i` is the one found for its key.
pub proof fn lemma_position_unique<V>(s: Seq<(Seq<char>, V)>, i: int)
    requires
        keys_distinct(s),
        0 <= i < s.len(),
    ensures
        has_key(s, s[i].0),
        key_position(s, s[i].0) == i,
        lookup(s, s[i].0) == Some(s[i].1),
{
    let k = s[i].0;
    assert(s[i].0 == k);
    let j = key_position(s, k);
    assert(0 <= j < s.len() && s[j].0 == k);
    if j != i {
        assert(s[i].0 != s[j].0);
    }
}

/// Storing under a key keeps keys distinct and makes the lookup of that key give the
/// new value, while every other key keeps its value.
pub proof fn lemma_with_entry<V>(s: Seq<(Seq<char>, V)>, k: Seq<char>, v: V, other: Seq<char>)
    requires
        keys_distinct(s),
    ensures
        keys_distinct(with_entry(s, k, v)),
        lookup(with_entry(s, k, v), k) == Some(v),
        other != k ==> lookup(with_entry(s, k, v), other) == lookup(s, other),
{
    let t = with_entry(s, k, v);
    if has_key(s, k) {
        let p = key_position(s, k);
        assert forall|i: int, j: int|
            0 <= i < t.len() && 0 <= j < t.len() && i != j implies #[trigger] t[i].0
            != #[trigger] t[j].0 by {
            assert(s[i].0 != s[j].0);
        }
        lemma_position_unique(t, p);
        if has_key(s, other) && other != k {
            let q = key_position(s, other);
            lemma_position_unique(s, q);
            assert(t[q].0 == other);
            lemma_position_unique(t, q);
        }
        if has_key(t, other) && other != k {
            let q = key_position(t, other);
            assert(s[q].0 == other);
        }
    } else {
        assert forall|i: int, j: int|
            0 <= i < t.len() && 0 <= j < t.len() && i != j implies #[trigger] t[i].0
            != #[trigger] t[j].0 by {
            if i < s.len() && j < s.len() {
                assert(s[i].0 != s[j].0);
            } else if i < s.len() {
                assert(s[i].0 == t[i].0);
            } else {
                assert(s[j].0 == t[j].0);
            }
        }
        lemma_position_unique(t, s.len() as int);
        if has_key(s, other) && other != k {
            let q = key_position(s, other);
            lemma_position_unique(s, q);
            lemma_position_unique(t, q);
        }
        if has_key(t, other) && other != k {
            let q = key_position(t, other);
            assert(q < s.len());
            assert(s[q].0 == other);
        }
    }
}

/// Removing a key keeps keys distinct, leaves no entry for that key and every other
/// key with its value.
pub proof fn lemma_without_key<V>(s: Seq<(Seq<char>, V)>, k: Seq<char>, other: Seq<char>)
    requires
        keys_distinct(s),
    ensures
        keys_distinct(without_key(s, k)),
        lookup(without_key(s, k), k) is None,
        other != k ==> lookup(without_key(s, k), other) == lookup(s, other),
{
    let t = without_key(s, k);
    if has_key(s, k) {
        let p = key_position(s, k);
        assert forall|i: int, j: int|
            0 <= i < t.len() && 0 <= j < t.len() && i != j implies #[trigger] t[i].0
            != #[trigger] t[j].0 by {
            let i2 = if i < p { i } else { i + 1 };
            let j2 = if j < p { j } else { j + 1 };
            assert(t[i] == s[i2]);
            assert(t[j] == s[j2]);
            assert(s[i2].0 != s[j2].0);
        }
        if has_key(t, k) {
            let q = key_position(t, k);
            let q2 = if q < p { q } else { q + 1 };
            assert(t[q] == s[q2]);
            assert(s[p].0 != s[q2].0);
        }
        if has_key(s, other) && other != k {
            let q = key_position(s, other);
            lemma_position_unique(s, q);
            let q1 = if q < p { q } else { q - 1 };
            assert(q != p);
            assert(t[q1] == s[q]);
            lemma_position_unique(t, q1);
        }
        if has_key(t, other) && other != k {
            let q = key_position(t, other);
            let q2 = if q < p { q } else { q + 1 };
            assert(t[q] == s[q2]);
            assert(s[q2].0 == other);
        }
    }
}

/// A table of values keyed by strings, kept in insertion order, with at most one entry
/// per key.
pub struct Registry<V: DeepView> {
    entries: Vec<(String, V)>,
}

/// The entries of a table as keys and values seen through their deep views.
pub open spec fn entries_view<V: DeepView>(s: Seq<(String, V)>) -> Seq<(Seq<char>, V::V)> {
    s.map_values(|e: (String, V)| (e.0@, e.1.deep_view()))
}

impl<V: DeepView> View for Registry<V> {
    type V = Seq<(Seq<char>, V::V)>;

    closed spec fn view(&self) -> Seq<(Seq<char>, V::V)> {
        entries_view(self.entries@)
    }
}

impl<V: DeepView> Registry<V> {
    #[verifier::type_invariant]
    spec fn distinct_keys(self) -> bool {
        keys_distinct(self@)
    }

    /// An empty table.
    pub fn new() -> (r: Self)
        ensures
            r@ == Seq::<(Seq<char>, V::V)>::empty(),
    {
        let r = Registry { entries: Vec::new() };
        assert(r@ =~= Seq::<(Seq<char>, V::V)>::empty());
        r
    }

    /// No key occurs twice.
    pub fn check_distinct(&self)
        ensures
            keys_distinct(self@),
    {
        proof {
            use_type_invariant(self);
        }
    }

    /// The number of entries.
    pub fn len(&self) -> (n: usize)
        ensures
            n == self@.len(),
    {
        self.entries.len()
    }

    /// Whether the table holds no entry.
    pub fn is_empty(&self) -> (b: bool)
        ensures
            b == (self@.len() == 0),
    {
        self.entries.len() == 0
    }

    /// The key of the entry at position `i`.
    pub fn key_at(&self, i: usize) -> (k: &String)
        requires
            i < self@.len(),
        ensures
            k@ == self@[i as int].0,
    {
        &self.entries[i].0
    }

    /// The value of the entry at position `i`.
    pub fn value_at(&self, i: usize) -> (v: &V)
        requires
            i < self@.len(),
        ensures
            v.deep_view() == self@[i as int].1,
    {
        &self.entries[i].1
    }

    /// The position of the entry that carries `key`, if there is one.
    pub fn find(&self, key: &String) -> (r: Option<usize>)
        ensures
            match r {
                Some(i) => i < self@.len() && self@[i as int].0 == key@ && has_key(self@, key@)
                    && key_position(self@, key@) == i,
                None => !has_key(self@, key@),
            },
    {
        proof {
            use_type_invariant(self);
        }
        let n = self.entries.len();
        let mut i: usize = 0;
        while i < n
            invariant
                n == self@.len(),
                i <= n,
                keys_distinct(self@),
                forall|j: int| 0 <= j < i ==> self@[j].0 != key@,
            decreases n - i,
        {
            if self.entries[i].0 == *key {
                proof {
                    lemma_position_unique(self@, i as int);
                }
                return Some(i);
            }
            i = i + 1;
        }
        None
    }

    /// The value stored under `key`, if any.
    pub fn get(&self, key: &String) -> (r: Option<&V>)
        ensures
            match r {
                Some(v) => lookup(self@, key@) == Some(v.deep_view()),
                None => lookup(self@, key@) is None,
            },
    {
        proof {
            use_type_invariant(self);
        }
        match self.find(key) {
            Some(i) => Some(&self.entries[i].1),
            None => None,
        }
    }

    /// Whether some entry carries `key`.
    pub fn contains_key(&self, key: &String) -> (b: bool)
        ensures
            b == has_key(self@, key@),
    {
        self.find(key).is_some()
    }

    /// Stores `value` under `key`, replacing an existing entry in place.
    pub fn insert(&mut self, key: String, value: V)
        ensures
            final(self)@ == with_entry(old(self)@, key@, value.deep_view()),
            keys_distinct(final(self)@),
    {
        proof {
            use_type_invariant(&*self);
            lemma_with_entry(self@, key@, value.deep_view(), key@);
        }
        let ghost k = key@;
        let ghost dv = value.deep_view();
        match self.find(&key) {
            Some(i) => {
                let ghost s = self@;
                let mut entries: Vec<(String, V)> = Vec::new();
                std::mem::swap(&mut entries, &mut self.entries);
                entries.set(i, (key, value));
                assert(entries_view(entries@) =~= s.update(i as int, (k, dv)));
                self.entries = entries;
            },
            None => {
                let ghost s = self@;
                let mut entries: Vec<(String, V)> = Vec::new();
                std::mem::swap(&mut entries, &mut self.entries);
                entries.push((key, value));
                assert(entries_view(entries@) =~= s.push((k, dv)));
                self.entries = entries;
            },
        }
    }

    /// Removes the entry that carries `key`, if there is one.
    pub fn remove(&mut self, key: &String)
        ensures
            final(self)@ == without_key(old(self)@, key@),
            keys_distinct(final(self)@),
    {
        proof {
            use_type_invariant(&*self);
            lemma_without_key(self@, key@, key@);
        }
        match self.find(key) {
            Some(i) => {
                let ghost s = self@;
                let mut entries: Vec<(String, V)> = Vec::new();
                std::mem::swap(&mut entries, &mut self.entries);
                entries.remove(i);
                assert(entries_view(entries@) =~= s.remove(i as int));
                self.entries = entries;
            },
            None => {},
        }
    }

    /// Removes every entry.
    pub fn clear(&mut self)
        ensures
            final(self)@ == Seq::<(Seq<char>, V::V)>::empty(),
    {
        self.entries = Vec::new();
        assert(self@ =~= Seq::<(Seq<char>, V::V)>::empty());
    }

    /// Keeps, in order, the entries for which `keep` answers `true`.
    pub fn retain<F: Fn(&String, &V) -> bool>(
        &mut self,
        keep: F,
        Ghost(pred): Ghost<spec_fn((Seq<char>, V::V)) -> bool>,
    )
        requires
            forall|k: &String, v: &V| #[trigger] keep.requires((k, v)),
            forall|k: &String, v: &V, b: bool| keep.ensures((k, v), b) ==> b == pred((k@, v.deep_view())),
        ensures
            final(self)@ == old(self)@.filter(pred),
            keys_distinct(final(self)@),
    {
        proof {
            use_type_invariant(&*self);
        }
        let ghost s = self@;
        let mut old_entries: Vec<(String, V)> = Vec::new();
        std::mem::swap(&mut old_entries, &mut self.entries);
        let mut kept: Vec<(String, V)> = Vec::new();
        let ghost full = old_entries@;
        assert(entries_view(full) == s);
        for e in it: old_entries.into_iter()
            invariant
                it.seq() == full,
                s == entries_view(full),
                keys_distinct(s),
                entries_view(kept@) == s.take(it.index() as int).filter(pred),
                forall|k: &String, v: &V| #[trigger] keep.requires((k, v)),
                forall|k: &String, v: &V, b: bool| keep.ensures((k, v), b) ==> b == pred((k@, v.deep_view())),
        {
            let ghost idx = it.index() as int;
            let ghost before = entries_view(kept@);
            assert(s.take(idx + 1).drop_last() =~= s.take(idx));
            assert(s.take(idx + 1).last() == s[idx]);
            assert(s[idx] == (e.0@, e.1.deep_view()));
            proof {
                reveal(Seq::filter);
                assert(s.take(idx + 1).filter(pred) == (if pred(s[idx]) {
                    s.take(idx).filter(pred).push(s[idx])
                } else {
                    s.take(idx).filter(pred)
                }));
            }
            if keep(&e.0, &e.1) {
                kept.push(e);
                assert(entries_view(kept@) =~= before.push(s[idx]));
            } else {
                assert(entries_view(kept@) =~= before);
            }
        }
        assert(s.take(s.len() as int) =~= s);
        proof {
            let r = s.filter(pred);
            broadcast use vstd::seq_lib::group_filter_ensures;
            assert forall|i: int, j: int|
                0 <= i < r.len() && 0 <= j < r.len() && i != j implies #[trigger] r[i].0
                != #[trigger] r[j].0 by {
                lemma_filter_keys_distinct(s, pred, i, j);
            }
        }
        self.entries = kept;
    }
}

/// Keeping some of the entries keeps keys distinct.
pub proof fn lemma_filter_keys_distinct_pub<V>(s: Seq<(Seq<char>, V)>, pred: spec_fn((Seq<char>, V)) -> bool)
    requires
        keys_distinct(s),
    ensures
        keys_distinct(s.filter(pred)),
{
    let r = s.filter(pred);
    assert forall|i: int, j: int|
        0 <= i < r.len() && 0 <= j < r.len() && i != j implies #[trigger] r[i].0
        != #[trigger] r[j].0 by {
        lemma_filter_keys_distinct(s, pred, i, j);
    }
}

/// An entry that a filter keeps is still found under its key.
pub proof fn lemma_lookup_filter<V>(s: Seq<(Seq<char>, V)>, pred: spec_fn((Seq<char>, V)) -> bool, k: Seq<char>)
    requires
        keys_distinct(s),
        lookup(s, k) is Some,
        pred((k, lookup(s, k)->Some_0)),
    ensures
        lookup(s.filter(pred), k) == lookup(s, k),
{
    broadcast use vstd::seq_lib::group_filter_ensures;

    let i = key_position(s, k);
    lemma_position_unique(s, i);
    let r = s.filter(pred);
    assert(pred(s[i]));
    assert(r.contains(s[i]));
    let j = choose|j: int| 0 <= j < r.len() && r[j] == s[i];
    lemma_filter_keys_distinct_pub(s, pred);
    lemma_position_unique(r, j);
}

/// Filtering keeps keys distinct.
proof fn lemma_filter_keys_distinct<V>(
    s: Seq<(Seq<char>, V)>,
    pred: spec_fn((Seq<char>, V)) -> bool,
    i: int,
    j: int,
)
    requires
        keys_distinct(s),
        0 <= i < s.filter(pred).len(),
        0 <= j < s.filter(pred).len(),
        i != j,
    ensures
        s.filter(pred)[i].0 != s.filter(pred)[j].0,
    decreases s.len(),
{
    reveal(Seq::filter);
    let r = s.filter(pred);
    let rest = s.drop_last();
    let rr = rest.filter(pred);
    assert(keys_distinct(rest)) by {
        assert forall|a: int, b: int|
            0 <= a < rest.len() && 0 <= b < rest.len() && a != b implies #[trigger] rest[a].0
            != #[trigger] rest[b].0 by {
            assert(rest[a] == s[a] && rest[b] == s[b]);
        }
    }
    if pred(s.last()) {
        assert(r == rr.push(s.last()));
        if i == rr.len() || j == rr.len() {
            let other = if i == rr.len() { j } else { i };
            assert(rr.contains(rr[other]));
            rest.lemma_filter_contains_rev(pred, rr[other]);
            let m = choose|m: int| 0 <= m < rest.len() && rest[m] == rr[other];
            assert(s[m] == rr[other]);
            assert(s[s.len() - 1].0 != s[m].0);
        } else {
            assert(r[i] == rr[i] && r[j] == rr[j]);
            lemma_filter_keys_distinct(rest, pred, i, j);
        }
    } else {
        assert(r == rr);
        lemma_filter_keys_distinct(rest, pred, i, j);
    }
}

} // verus!
