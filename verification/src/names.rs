//! `NameMap`: a map from names to values, the shape every registry section
//! has. No name occurs twice. Entries keep the order they were first inserted
//! in; every listing the library produces from a map sorts it, so that order
//! never shows.

use vstd::prelude::*;

use crate::text::{str_eq, views};

verus! {

broadcast use vstd::seq_lib::group_to_multiset_ensures;

#[derive(Debug, PartialEq, Eq)]
pub struct NameMap<V> {
    entries: Vec<(String, V)>,
}

impl<V> View for NameMap<V> {
    type V = Seq<(Seq<char>, V)>;

    closed spec fn view(&self) -> Seq<(Seq<char>, V)> {
        self.entries@.map_values(|e: (String, V)| (e.0@, e.1))
    }
}

impl<V> NameMap<V> {
    /// No two entries share a name.
    #[verifier::type_invariant]
    spec fn distinct_names(self) -> bool {
        forall|i: int, j: int|
            0 <= i < j < self.entries@.len() ==> #[trigger] self.entries@[i].0@
                != #[trigger] self.entries@[j].0@
    }

    /// The names, in entry order.
    pub open spec fn names(self) -> Seq<Seq<char>> {
        self@.map_values(|e: (Seq<char>, V)| e.0)
    }

    /// The values, in entry order.
    pub open spec fn values(self) -> Seq<V> {
        self@.map_values(|e: (Seq<char>, V)| e.1)
    }

    /// Some entry is named `k`.
    pub open spec fn has(self, k: Seq<char>) -> bool {
        has_in(self@, k)
    }

    /// Entry `i` is the first one named `k`.
    pub open spec fn first_at(self, k: Seq<char>, i: int) -> bool {
        first_in(self@, k, i)
    }

    /// Where the entry named `k` sits (meaningful when `has(k)`).
    pub open spec fn position(self, k: Seq<char>) -> int {
        position_in(self@, k)
    }

    /// The value stored under `k`, if any.
    pub open spec fn lookup(self, k: Seq<char>) -> Option<V> {
        lookup_in(self@, k)
    }

    /// The entries after `insert(k, v)`.
    pub open spec fn inserted(self, k: Seq<char>, v: V) -> Seq<(Seq<char>, V)> {
        inserted_in(self@, k, v)
    }

    /// The entries after `remove(k)`.
    pub open spec fn removed(self, k: Seq<char>) -> Seq<(Seq<char>, V)> {
        removed_in(self@, k)
    }

    pub proof fn lemma_first_exists(self, k: Seq<char>)
        requires
            self.has(k),
        ensures
            self.first_at(k, self.position(k)),
    {
        let i = choose|i: int| 0 <= i < self@.len() && #[trigger] self@[i].0 == k;
        lemma_first_in_prefix(self@, k, i);
        let f = choose|f: int| first_in(self@, k, f);
        assert(self.first_at(k, f));
    }

    proof fn lemma_distinct(self)
        requires
            self.distinct_names(),
        ensures
            self.names().no_duplicates(),
    {
        assert forall|i: int, j: int| 0 <= i < self.names().len() && 0 <= j < self.names().len() && i != j
            implies self.names()[i] != self.names()[j] by {
            if i < j {
                assert(self.entries@[i].0@ != self.entries@[j].0@);
            } else {
                assert(self.entries@[j].0@ != self.entries@[i].0@);
            }
        }
    }

    /// An empty map.
    pub fn new() -> (r: Self)
        ensures
            r@ == Seq::<(Seq<char>, V)>::empty(),
            r.names().no_duplicates(),
    {
        let r = NameMap { entries: Vec::new() };
        assert(r@ =~= Seq::<(Seq<char>, V)>::empty());
        proof {
            use_type_invariant(&r);
            r.lemma_distinct();
        }
        r
    }

    pub fn len(&self) -> (r: usize)
        ensures
            r == self@.len(),
    {
        self.entries.len()
    }

    pub fn is_empty(&self) -> (r: bool)
        ensures
            r == (self@.len() == 0),
    {
        self.entries.len() == 0
    }

    /// The name of entry `i`.
    pub fn name_at(&self, i: usize) -> (r: &String)
        requires
            i < self@.len(),
        ensures
            r@ == self@[i as int].0,
    {
        &self.entries[i].0
    }

    /// The value of entry `i`.
    pub fn value_at(&self, i: usize) -> (r: &V)
        requires
            i < self@.len(),
        ensures
            *r == self@[i as int].1,
    {
        &self.entries[i].1
    }

    /// The index of the entry named `k`, if any.
    pub fn find(&self, k: &str) -> (r: Option<usize>)
        ensures
            r is None <==> !self.has(k@),
            r matches Some(i) ==> self.first_at(k@, i as int) && i as int == self.position(k@),
    {
        let mut i: usize = 0;
        while i < self.entries.len()
            invariant
                i <= self@.len(),
                self@.len() == self.entries@.len(),
                forall|j: int| 0 <= j < i ==> #[trigger] self@[j].0 != k@,
            decreases self.entries.len() - i,
        {
            if str_eq(self.entries[i].0.as_str(), k) {
                assert(self@[i as int].0 == k@);
                assert(self.has(k@));
                proof {
                    self.lemma_first_exists(k@);
                    lemma_first_unique(self@, k@, i as int, self.position(k@));
                }
                return Some(i);
            }
            i += 1;
        }
        None
    }

    pub fn contains_key(&self, k: &str) -> (r: bool)
        ensures
            r == self.has(k@),
    {
        self.find(k).is_some()
    }

    /// The value stored under `k`.
    pub fn get(&self, k: &str) -> (r: Option<&V>)
        ensures
            r is None <==> self.lookup(k@) is None,
            r matches Some(v) ==> self.lookup(k@) == Some(*v),
    {
        match self.find(k) {
            Some(i) => Some(&self.entries[i].1),
            None => None,
        }
    }

    /// Store `v` under `k`, replacing what was there.
    pub fn insert(&mut self, k: String, v: V)
        ensures
            final(self)@ == old(self).inserted(k@, v),
            final(self).names().no_duplicates(),
    {
        match self.find(k.as_str()) {
            Some(i) => {
                let ghost before = self@;
                let ghost key = k@;
                proof {
                    use_type_invariant(&*self);
                }
                let mut entries: Vec<(String, V)> = Vec::new();
                std::mem::swap(&mut entries, &mut self.entries);
                entries.set(i, (k, v));
                proof {
                    assert(entries@.map_values(|e: (String, V)| (e.0@, e.1)) =~= before.update(i as int, (key, v)));
                    assert forall|a: int, b: int| 0 <= a < b < entries@.len() implies #[trigger] entries@[a].0@
                        != #[trigger] entries@[b].0@ by {
                        assert(before[a].0 == entries@[a].0@);
                        assert(before[b].0 == entries@[b].0@);
                    }
                }
                self.entries = entries;
                assert(self@ =~= before.update(i as int, (key, v)));
                proof {
                    use_type_invariant(&*self);
                    self.lemma_distinct();
                }
            },
            None => {
                let ghost before = self@;
                let ghost key = k@;
                proof {
                    use_type_invariant(&*self);
                    assert forall|j: int| 0 <= j < self.entries@.len() implies #[trigger] self.entries@[j].0@
                        != key by {
                        assert(self@[j].0 == self.entries@[j].0@);
                    }
                }
                let mut entries: Vec<(String, V)> = Vec::new();
                std::mem::swap(&mut entries, &mut self.entries);
                entries.push((k, v));
                self.entries = entries;
                assert(self@ =~= before.push((key, v)));
                proof {
                    use_type_invariant(&*self);
                    self.lemma_distinct();
                }
            },
        }
    }

    /// Remove the entry named `k`, returning its value.
    pub fn remove(&mut self, k: &str) -> (r: Option<V>)
        ensures
            final(self)@ == old(self).removed(k@),
            r == old(self).lookup(k@),
            final(self).names().no_duplicates(),
    {
        match self.find(k) {
            Some(i) => {
                let ghost before = self@;
                proof {
                    use_type_invariant(&*self);
                }
                let mut entries: Vec<(String, V)> = Vec::new();
                std::mem::swap(&mut entries, &mut self.entries);
                let ghost full = entries@;
                let e = entries.remove(i);
                proof {
                    assert forall|a: int, b: int| 0 <= a < b < entries@.len() implies #[trigger] entries@[a].0@
                        != #[trigger] entries@[b].0@ by {
                        let a2 = if a < i { a } else { a + 1 };
                        let b2 = if b < i { b } else { b + 1 };
                        assert(entries@[a] == full[a2]);
                        assert(entries@[b] == full[b2]);
                    }
                }
                self.entries = entries;
                assert(self@ =~= before.remove(i as int));
                proof {
                    use_type_invariant(&*self);
                    self.lemma_distinct();
                }
                Some(e.1)
            },
            None => {
                proof {
                    use_type_invariant(&*self);
                    self.lemma_distinct();
                }
                None
            },
        }
    }

    /// Replace the value of entry `i`, keeping its name.
    pub fn set_value(&mut self, i: usize, v: V)
        requires
            i < old(self)@.len(),
        ensures
            final(self)@ == old(self)@.update(i as int, (old(self)@[i as int].0, v)),
            final(self).names().no_duplicates(),
    {
        let ghost before = self@;
        proof {
            use_type_invariant(&*self);
        }
        let name = self.entries[i].0.clone();
        let mut entries: Vec<(String, V)> = Vec::new();
        std::mem::swap(&mut entries, &mut self.entries);
        entries.set(i, (name, v));
        proof {
            assert forall|a: int, b: int| 0 <= a < b < entries@.len() implies #[trigger] entries@[a].0@
                != #[trigger] entries@[b].0@ by {
                assert(before[a].0 == entries@[a].0@);
                assert(before[b].0 == entries@[b].0@);
            }
        }
        self.entries = entries;
        assert(self@ =~= before.update(i as int, (before[i as int].0, v)));
        proof {
            use_type_invariant(&*self);
            self.lemma_distinct();
        }
    }

    /// The names, in entry order.
    pub fn keys(&self) -> (r: Vec<String>)
        ensures
            views(r@) == self.names(),
    {
        let mut out: Vec<String> = Vec::new();
        let mut i: usize = 0;
        while i < self.entries.len()
            invariant
                i <= self@.len(),
                self@.len() == self.entries@.len(),
                views(out@) == self.names().subrange(0, i as int),
            decreases self.entries.len() - i,
        {
            let ghost prev = out@;
            let name = self.entries[i].0.clone();
            assert(self.names()[i as int] == name@);
            out.push(name);
            assert(views(out@) =~= views(prev).push(name@));
            assert(self.names().subrange(0, i + 1) =~= self.names().subrange(0, i as int).push(name@));
            i += 1;
            assert(views(out@) =~= self.names().subrange(0, i as int));
        }
        assert(self.names().subrange(0, i as int) =~= self.names());
        out
    }

    /// The names, ascending.
    pub fn sorted_keys(&self) -> (r: Vec<String>)
        ensures
            crate::sort::sorted_seqs(views(r@)),
            views(r@).to_multiset() == self.names().to_multiset(),
    {
        let k = self.keys();
        let r = crate::sort::sort_strings(k);
        proof {
            lemma_views_multiset(r@, k@);
        }
        r
    }
}

/// Read after write: the value stored under a name is the last one inserted
/// there, and inserting leaves every other name's value alone.
pub proof fn law_insert_lookup<V>(m: NameMap<V>, after: Seq<(Seq<char>, V)>, k: Seq<char>, v: V, other: Seq<char>)
    requires
        after == m.inserted(k, v),
    ensures
        lookup_in(after, k) == Some(v),
        other != k ==> lookup_in(after, other) == m.lookup(other),
{
    if m.has(k) {
        m.lemma_first_exists(k);
    }
    lemma_lookup_in_agrees(m);
    let p = m.position(k);
    if m.has(k) {
        assert(first_in(after, k, p));
        lemma_lookup_in_first(after, k, p);
    } else {
        assert(first_in(after, k, m@.len() as int));
        lemma_lookup_in_first(after, k, m@.len() as int);
    }
    if other != k {
        if m.has(other) {
            m.lemma_first_exists(other);
            let q = m.position(other);
            assert(first_in(after, other, q));
            lemma_lookup_in_first(after, other, q);
            lemma_lookup_in_first(m@, other, q);
        } else {
            assert forall|j: int| 0 <= j < after.len() implies #[trigger] after[j].0 != other by {
                if j < m@.len() {
                    assert(after[j].0 == m@[j].0 || after[j].0 == k);
                }
            }
            assert(!has_in(after, other));
        }
    }
}

/// Removing a name leaves no entry under it, and leaves every other name's
/// value alone.
pub proof fn law_remove_lookup<V>(m: NameMap<V>, after: Seq<(Seq<char>, V)>, k: Seq<char>, other: Seq<char>)
    requires
        after == m.removed(k),
        m.names().no_duplicates(),
    ensures
        lookup_in(after, k) is None,
        other != k ==> lookup_in(after, other) == m.lookup(other),
{
    lemma_lookup_in_agrees(m);
    if m.has(k) {
        m.lemma_first_exists(k);
        let p = m.position(k);
        assert forall|j: int| 0 <= j < after.len() implies #[trigger] after[j].0 != k by {
            if j < p {
                assert(after[j] == m@[j]);
                assert(m.names()[j] == m@[j].0);
                assert(m.names()[j] != m.names()[p]);
            } else {
                assert(after[j] == m@[j + 1]);
                assert(m.names()[j + 1] == m@[j + 1].0);
                assert(m.names()[j + 1] != m.names()[p]);
            }
        }
        if other != k && m.has(other) {
            m.lemma_first_exists(other);
            let q = m.position(other);
            let q2 = if q < p { q } else { q - 1 };
            assert(after[q2] == m@[q]);
            assert(first_in(after, other, q2));
            lemma_lookup_in_first(after, other, q2);
            lemma_lookup_in_first(m@, other, q);
        } else if other != k {
            assert forall|j: int| 0 <= j < after.len() implies #[trigger] after[j].0 != other by {
                if j < p {
                    assert(after[j] == m@[j]);
                } else {
                    assert(after[j] == m@[j + 1]);
                }
            }
        }
    }
}

/// Some entry of `s` is named `k`.
pub open spec fn has_in<V>(s: Seq<(Seq<char>, V)>, k: Seq<char>) -> bool {
    exists|i: int| 0 <= i < s.len() && #[trigger] s[i].0 == k
}

/// Where the first entry of `s` named `k` sits (meaningful when one is).
pub open spec fn position_in<V>(s: Seq<(Seq<char>, V)>, k: Seq<char>) -> int {
    choose|i: int| first_in(s, k, i)
}

/// `s` after storing `v` under `k`: the entry named `k` gets `v`, or a new
/// entry is appended.
pub open spec fn inserted_in<V>(s: Seq<(Seq<char>, V)>, k: Seq<char>, v: V) -> Seq<(Seq<char>, V)> {
    if has_in(s, k) {
        s.update(position_in(s, k), (k, v))
    } else {
        s.push((k, v))
    }
}

/// `s` after removing the entry named `k`.
pub open spec fn removed_in<V>(s: Seq<(Seq<char>, V)>, k: Seq<char>) -> Seq<(Seq<char>, V)> {
    if has_in(s, k) {
        s.remove(position_in(s, k))
    } else {
        s
    }
}

pub open spec fn first_in<V>(s: Seq<(Seq<char>, V)>, k: Seq<char>, i: int) -> bool {
    &&& 0 <= i < s.len()
    &&& s[i].0 == k
    &&& forall|j: int| 0 <= j < i ==> #[trigger] s[j].0 != k
}

/// The value under `k` in an entry sequence: that of its first entry.
pub open spec fn lookup_in<V>(s: Seq<(Seq<char>, V)>, k: Seq<char>) -> Option<V> {
    if has_in(s, k) {
        Some(s[position_in(s, k)].1)
    } else {
        None
    }
}

/// The position of a name a sequence holds is its first entry with that name.
pub proof fn lemma_position_in<V>(s: Seq<(Seq<char>, V)>, k: Seq<char>)
    requires
        has_in(s, k),
    ensures
        first_in(s, k, position_in(s, k)),
{
    let i = choose|i: int| 0 <= i < s.len() && #[trigger] s[i].0 == k;
    lemma_first_in_prefix(s, k, i);
}

proof fn lemma_first_in_prefix<V>(s: Seq<(Seq<char>, V)>, k: Seq<char>, i: int)
    requires
        0 <= i < s.len(),
        s[i].0 == k,
    ensures
        exists|f: int| first_in(s, k, f),
    decreases i,
{
    if exists|j: int| 0 <= j < i && #[trigger] s[j].0 == k {
        let j = choose|j: int| 0 <= j < i && #[trigger] s[j].0 == k;
        lemma_first_in_prefix(s, k, j);
    } else {
        assert(first_in(s, k, i));
    }
}

proof fn lemma_first_unique<V>(s: Seq<(Seq<char>, V)>, k: Seq<char>, a: int, b: int)
    requires
        first_in(s, k, a),
        first_in(s, k, b),
    ensures
        a == b,
{
    if a < b {
        assert(s[a].0 != k);
    } else if b < a {
        assert(s[b].0 != k);
    }
}

proof fn lemma_lookup_in_first<V>(s: Seq<(Seq<char>, V)>, k: Seq<char>, i: int)
    requires
        first_in(s, k, i),
    ensures
        lookup_in(s, k) == Some(s[i].1),
{
    let f = choose|f: int| first_in(s, k, f);
    lemma_first_unique(s, k, f, i);
}

proof fn lemma_lookup_in_agrees<V>(m: NameMap<V>)
    ensures
        forall|k: Seq<char>| #[trigger] lookup_in(m@, k) == m.lookup(k),
{
    assert forall|k: Seq<char>| #[trigger] lookup_in(m@, k) == m.lookup(k) by {
        if m.has(k) {
            m.lemma_first_exists(k);
            lemma_lookup_in_first(m@, k, m.position(k));
        }
    }
}

/// Permuting a sequence permutes its image under any function.
pub proof fn lemma_map_multiset<A, B>(a: Seq<A>, b: Seq<A>, f: spec_fn(A) -> B)
    requires
        a.to_multiset() == b.to_multiset(),
    ensures
        a.map_values(f).to_multiset() == b.map_values(f).to_multiset(),
    decreases a.len(),
{
    broadcast use vstd::multiset::group_multiset_axioms;
    assert(a.to_multiset().len() == a.len());
    assert(b.to_multiset().len() == b.len());
    if a.len() == 0 {
        assert(a.map_values(f) =~= Seq::empty());
        assert(b.map_values(f) =~= Seq::empty());
    } else {
        let x = a[0];
        assert(a.contains(x));
        assert(a.to_multiset().count(x) > 0);
        assert(b.to_multiset().count(x) > 0);
        assert(b.contains(x));
        let j = choose|j: int| 0 <= j < b.len() && b[j] == x;
        assert(a.remove(0).to_multiset() == a.to_multiset().remove(x));
        assert(b.remove(j).to_multiset() == b.to_multiset().remove(x));
        lemma_map_multiset(a.remove(0), b.remove(j), f);
        assert(a.remove(0).map_values(f) =~= a.map_values(f).remove(0));
        assert(b.remove(j).map_values(f) =~= b.map_values(f).remove(j));
        assert(a.map_values(f).remove(0).to_multiset() == a.map_values(f).to_multiset().remove(
            a.map_values(f)[0],
        ));
        assert(b.map_values(f).remove(j).to_multiset() == b.map_values(f).to_multiset().remove(
            b.map_values(f)[j],
        ));
        assert(a.map_values(f).contains(f(x)));
        assert(b.map_values(f)[j] == f(x));
        assert(a.map_values(f).to_multiset().count(f(x)) > 0);
        assert(b.map_values(f).to_multiset().count(f(x)) > 0);
        assert(a.map_values(f).to_multiset() =~= a.map_values(f).to_multiset().remove(f(x)).insert(
            f(x),
        ));
        assert(b.map_values(f).to_multiset() =~= b.map_values(f).to_multiset().remove(f(x)).insert(
            f(x),
        ));
    }
}

/// Permuting strings permutes their views.
pub proof fn lemma_views_multiset(a: Seq<String>, b: Seq<String>)
    requires
        a.to_multiset() == b.to_multiset(),
    ensures
        views(a).to_multiset() == views(b).to_multiset(),
{
    let f = |s: String| s@;
    lemma_map_multiset(a, b, f);
    assert(views(a) =~= a.map_values(f));
    assert(views(b) =~= b.map_values(f));
}

} // verus!
