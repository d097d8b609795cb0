use vstd::prelude::*;

verus! {

/// Entries keyed by text, in the order in which their keys were first put.
pub type Entries<V> = Seq<(Seq<char>, V)>;

/// No key occurs twice.
pub open spec fn distinct_keys<V>(e: Entries<V>) -> bool {
    forall|i: int, j: int| 0 <= i < j < e.len() ==> e[i].0 != e[j].0
}

/// The value stored under `k`, if any.
pub open spec fn lookup<V>(e: Entries<V>, k: Seq<char>) -> Option<V>
    decreases e.len(),
{
    if e.len() == 0 {
        None
    } else if e[0].0 == k {
        Some(e[0].1)
    } else {
        lookup(e.drop_first(), k)
    }
}

/// `e` with `v` stored under `k`: in place of the old value when `k` is
/// present, else at the end.
pub open spec fn put<V>(e: Entries<V>, k: Seq<char>, v: V) -> Entries<V>
    decreases e.len(),
{
    if e.len() == 0 {
        seq![(k, v)]
    } else if e[0].0 == k {
        seq![(k, v)] + e.drop_first()
    } else {
        seq![e[0]] + put(e.drop_first(), k, v)
    }
}

/// `e` without the entry of `k`, the others in their order.
pub open spec fn without<V>(e: Entries<V>, k: Seq<char>) -> Entries<V> {
    e.filter(other_key::<V>(k))
}

/// Whether an entry has a key other than `k`.
pub open spec fn other_key<V>(k: Seq<char>) -> spec_fn((Seq<char>, V)) -> bool {
    |p: (Seq<char>, V)| p.0 != k
}

/// The keys of `e`, in order.
pub open spec fn keys<V>(e: Entries<V>) -> Seq<Seq<char>> {
    e.map_values(|p: (Seq<char>, V)| p.0)
}

pub proof fn lemma_lookup_index<V>(e: Entries<V>, k: Seq<char>)
    requires
        distinct_keys(e),
    ensures
        lookup(e, k) is None <==> (forall|i: int| 0 <= i < e.len() ==> #[trigger] e[i].0 != k),
        forall|i: int| 0 <= i < e.len() && #[trigger] e[i].0 == k ==> lookup(e, k) == Some(e[i].1),
    decreases e.len(),
{
    if e.len() > 0 {
        lemma_lookup_index(e.drop_first(), k);
        assert forall|i: int| 0 < i < e.len() implies #[trigger] e[i] == e.drop_first()[i - 1] by {}
    }
}

pub proof fn lemma_put_shape<V>(e: Entries<V>, k: Seq<char>, v: V)
    requires
        distinct_keys(e),
    ensures
        distinct_keys(put(e, k, v)),
        forall|i: int| 0 <= i < e.len() && #[trigger] e[i].0 == k ==> put(e, k, v) == e.update(i, (k, v)),
        (forall|i: int| 0 <= i < e.len() ==> #[trigger] e[i].0 != k) ==> put(e, k, v) == e.push((k, v)),
    decreases e.len(),
{
    if e.len() > 0 {
        lemma_put_shape(e.drop_first(), k, v);
        let r = put(e, k, v);
        assert forall|i: int| 0 < i < e.len() implies #[trigger] e[i] == e.drop_first()[i - 1] by {}
        if e[0].0 == k {
            assert(r =~= e.update(0, (k, v)));
            assert forall|i: int| 0 <= i < e.len() && #[trigger] e[i].0 == k implies i == 0 by {}
        } else {
            assert forall|i: int| 0 <= i < e.len() && #[trigger] e[i].0 == k implies r == e.update(i, (k, v)) by {
                assert(e.drop_first()[i - 1].0 == k);
                assert(r =~= e.update(i, (k, v)));
            }
            if forall|i: int| 0 <= i < e.len() ==> #[trigger] e[i].0 != k {
                assert forall|i: int| 0 <= i < e.drop_first().len() implies #[trigger] e.drop_first()[i].0 != k by {
                    assert(e.drop_first()[i] == e[i + 1]);
                }
                assert(r =~= e.push((k, v)));
            }
        }
        let t = put(e.drop_first(), k, v);
        assert forall|a: int, b: int| 0 <= a < b < r.len() implies r[a].0 != r[b].0 by {
            if a == 0 && e[0].0 != k {
                if b - 1 < e.drop_first().len() && t[b - 1].0 != k {
                    assert(t[b - 1] == e.drop_first()[b - 1]) by {
                        if exists|i: int| 0 <= i < e.drop_first().len() && #[trigger] e.drop_first()[i].0 == k {
                            let i = choose|i: int| 0 <= i < e.drop_first().len() && #[trigger] e.drop_first()[i].0 == k;
                            assert(t == e.drop_first().update(i, (k, v)));
                        } else {
                            assert(t == e.drop_first().push((k, v)));
                        }
                    }
                    assert(e[b] == e.drop_first()[b - 1]);
                }
            }
        }
    }
}

proof fn lemma_without_absent<V>(e: Entries<V>, k: Seq<char>)
    requires
        forall|i: int| 0 <= i < e.len() ==> #[trigger] e[i].0 != k,
    ensures
        without(e, k) == e,
    decreases e.len(),
{
    broadcast use Seq::lemma_filter_push;
    if e.len() > 0 {
        let p = e.drop_last();
        assert forall|i: int| 0 <= i < p.len() implies #[trigger] p[i].0 != k by {
            assert(p[i] == e[i]);
        }
        lemma_without_absent(p, k);
        assert(p.push(e.last()) =~= e);
    }
}

pub proof fn lemma_without_index<V>(e: Entries<V>, k: Seq<char>, i: int)
    requires
        distinct_keys(e),
        0 <= i < e.len(),
        e[i].0 == k,
    ensures
        without(e, k) == e.remove(i),
    decreases e.len(),
{
    broadcast use Seq::lemma_filter_push;
    let p = e.drop_last();
    assert(p.push(e.last()) =~= e);
    if i == e.len() - 1 {
        assert forall|j: int| 0 <= j < p.len() implies #[trigger] p[j].0 != k by {
            assert(p[j] == e[j]);
        }
        lemma_without_absent(p, k);
        assert(e.remove(i) =~= p);
    } else {
        assert forall|a: int, b: int| 0 <= a < b < p.len() implies p[a].0 != p[b].0 by {
            assert(p[a] == e[a] && p[b] == e[b]);
        }
        assert(p[i] == e[i]);
        lemma_without_index(p, k, i);
        assert(e.last().0 != k) by {
            assert(e.last() == e[e.len() - 1]);
        }
        assert(e.remove(i) =~= p.remove(i).push(e.last()));
    }
}

proof fn lemma_lookup_put_any<V>(e: Entries<V>, k: Seq<char>, v: V, other: Seq<char>)
    ensures
        lookup(put(e, k, v), k) == Some(v),
        other != k ==> lookup(put(e, k, v), other) == lookup(e, other),
    decreases e.len(),
{
    let r = put(e, k, v);
    if e.len() == 0 {
        assert(r[0] == (k, v));
        if other != k {
            assert(r.drop_first() =~= Seq::<(Seq<char>, V)>::empty());
            assert(lookup(r.drop_first(), other) is None);
        }
    } else if e[0].0 == k {
        assert(r[0] == (k, v));
        assert(r.drop_first() =~= e.drop_first());
        if other != k {
            assert(lookup(r, other) == lookup(r.drop_first(), other));
        }
    } else {
        lemma_lookup_put_any(e.drop_first(), k, v, other);
        assert(r[0] == e[0]);
        assert(r.drop_first() =~= put(e.drop_first(), k, v));
    }
}

proof fn lemma_lookup_without_any<V>(e: Entries<V>, k: Seq<char>, other: Seq<char>)
    ensures
        lookup(without(e, k), k) is None,
        other != k ==> lookup(without(e, k), other) == lookup(e, other),
    decreases e.len(),
{
    broadcast use Seq::lemma_filter_prepend;

    if e.len() == 0 {
        assert(without(e, k) =~= Seq::<(Seq<char>, V)>::empty());
    } else {
        let d = e.drop_first();
        lemma_lookup_without_any(d, k, other);
        assert(seq![e[0]] + d =~= e);
        let r = without(e, k);
        if e[0].0 == k {
            assert(r =~= without(d, k));
        } else {
            assert(r =~= seq![e[0]] + without(d, k));
            assert(r[0] == e[0]);
            assert(r.drop_first() =~= without(d, k));
        }
    }
}

/// A read after a write gives back what was written, and the write leaves
/// every other key as it was.
pub proof fn law_lookup_put<V>(e: Entries<V>, k: Seq<char>, v: V, other: Seq<char>)
    ensures
        lookup(put(e, k, v), k) == Some(v),
        other != k ==> lookup(put(e, k, v), other) == lookup(e, other),
        distinct_keys(e) ==> distinct_keys(put(e, k, v)),
{
    lemma_lookup_put_any(e, k, v, other);
    if distinct_keys(e) {
        lemma_put_shape(e, k, v);
    }
}

/// After a removal the key is gone and every other key keeps its value.
pub proof fn law_lookup_without<V>(e: Entries<V>, k: Seq<char>, other: Seq<char>)
    ensures
        lookup(without(e, k), k) is None,
        other != k ==> lookup(without(e, k), other) == lookup(e, other),
        distinct_keys(e) ==> distinct_keys(without(e, k)),
{
    lemma_lookup_without_any(e, k, other);
    if distinct_keys(e) {
        if exists|i: int| 0 <= i < e.len() && #[trigger] e[i].0 == k {
            let i = choose|i: int| 0 <= i < e.len() && #[trigger] e[i].0 == k;
            lemma_without_index(e, k, i);
            let r = without(e, k);
            assert forall|a: int, b: int| 0 <= a < b < r.len() implies r[a].0 != r[b].0 by {
                let a2 = if a < i { a } else { a + 1 };
                let b2 = if b < i { b } else { b + 1 };
                assert(r[a] == e[a2] && r[b] == e[b2]);
            }
        } else {
            lemma_without_absent(e, k);
        }
    }
}

/// A text-keyed table: the entries in the order in which their keys first came.
pub struct Registry<V> {
    entries: Vec<(String, V)>,
}

impl<V> Registry<V> {
    /// The entries, each key taken as its text.
    pub closed spec fn entries(&self) -> Entries<V> {
        self.entries@.map_values(|p: (String, V)| (p.0@, p.1))
    }

    #[verifier::type_invariant]
    closed spec fn inv(self) -> bool {
        distinct_keys(self.entries())
    }

    /// An empty table.
    pub fn new() -> (r: Self)
        ensures
            r.entries() == Seq::<(Seq<char>, V)>::empty(),
    {
        let r = Registry { entries: Vec::new() };
        assert(r.entries() =~= Seq::<(Seq<char>, V)>::empty());
        r
    }

    /// The number of entries.
    pub fn len(&self) -> (n: usize)
        ensures
            n == self.entries().len(),
            distinct_keys(self.entries()),
    {
        proof {
            use_type_invariant(self);
        }
        self.entries.len()
    }

    /// The key and value of entry `i`.
    pub fn entry(&self, i: usize) -> (r: (&String, &V))
        requires
            i < self.entries().len(),
        ensures
            r.0@ == self.entries()[i as int].0,
            *r.1 == self.entries()[i as int].1,
    {
        let p = &self.entries[i];
        (&p.0, &p.1)
    }

    /// Where `k` stands, if it does.
    pub fn position(&self, k: &String) -> (r: Option<usize>)
        ensures
            r matches Some(i) ==> i < self.entries().len() && self.entries()[i as int].0 == k@,
            r is None ==> forall|i: int| 0 <= i < self.entries().len() ==> #[trigger] self.entries()[i].0 != k@,
    {
        let mut i: usize = 0;
        while i < self.entries.len()
            invariant
                i <= self.entries().len(),
                self.entries().len() == self.entries@.len(),
                forall|j: int| 0 <= j < i ==> #[trigger] self.entries()[j].0 != k@,
            decreases self.entries.len() - i,
        {
            if self.entries[i].0 == *k {
                return Some(i);
            }
            i = i + 1;
        }
        None
    }

    /// The value under `k`, if any.
    pub fn get(&self, k: &String) -> (r: Option<&V>)
        ensures
            r matches Some(v) ==> lookup(self.entries(), k@) == Some(*v),
            r is None ==> lookup(self.entries(), k@) is None,
    {
        proof {
            use_type_invariant(self);
            lemma_lookup_index(self.entries(), k@);
        }
        match self.position(k) {
            Some(i) => Some(&self.entries[i].1),
            None => None,
        }
    }

    /// Stores `v` under `k`.
    pub fn put(&mut self, k: String, v: V)
        ensures
            final(self).entries() == put(old(self).entries(), k@, v),
            distinct_keys(final(self).entries()),
    {
        proof {
            use_type_invariant(&*self);
            lemma_put_shape(self.entries(), k@, v);
        }
        let ghost kv = k@;
        match self.position(&k) {
            Some(i) => {
                let mut entries = Vec::new();
                std::mem::swap(&mut entries, &mut self.entries);
                entries.remove(i);
                entries.insert(i, (k, v));
                proof {
                    assert(entries@.map_values(|p: (String, V)| (p.0@, p.1)) =~= old(self).entries().update(i as int, (kv, v)));
                }
                self.entries = entries;
            },
            None => {
                let mut entries = Vec::new();
                std::mem::swap(&mut entries, &mut self.entries);
                entries.push((k, v));
                proof {
                    assert(entries@.map_values(|p: (String, V)| (p.0@, p.1)) =~= old(self).entries().push((kv, v)));
                }
                self.entries = entries;
            },
        }
    }

    /// Drops the entry of `k`, if any; the others keep their order.
    pub fn remove(&mut self, k: &String)
        ensures
            final(self).entries() == without(old(self).entries(), k@),
            distinct_keys(final(self).entries()),
    {
        proof {
            use_type_invariant(&*self);
        }
        match self.position(k) {
            Some(i) => {
                proof {
                    lemma_without_index(self.entries(), k@, i as int);
                }
                let mut entries = Vec::new();
                std::mem::swap(&mut entries, &mut self.entries);
                entries.remove(i);
                proof {
                    assert(entries@.map_values(|p: (String, V)| (p.0@, p.1)) =~= old(self).entries().remove(i as int));
                }
                self.entries = entries;
            },
            None => {
                proof {
                    lemma_without_absent(self.entries(), k@);
                }
            },
        }
    }

    /// Takes out entry `i`; the others keep their order.
    pub fn remove_at(&mut self, i: usize) -> (r: (String, V))
        requires
            i < old(self).entries().len(),
        ensures
            r.0@ == old(self).entries()[i as int].0,
            r.1 == old(self).entries()[i as int].1,
            final(self).entries() == old(self).entries().remove(i as int),
            distinct_keys(final(self).entries()),
    {
        proof {
            use_type_invariant(&*self);
        }
        let mut entries = Vec::new();
        std::mem::swap(&mut entries, &mut self.entries);
        let r = entries.remove(i);
        proof {
            assert(entries@.map_values(|p: (String, V)| (p.0@, p.1)) =~= old(self).entries().remove(i as int));
            assert forall|a: int, b: int| 0 <= a < b < entries@.len() implies entries@[a].0@ != entries@[b].0@ by {
                let a2 = if a < i { a } else { a + 1 };
                let b2 = if b < i { b } else { b + 1 };
                assert(old(self).entries()[a2].0 != old(self).entries()[b2].0);
            }
        }
        self.entries = entries;
        r
    }

    /// Puts `v` under the new key `k` at place `i`.
    pub fn insert_at(&mut self, i: usize, k: String, v: V)
        requires
            i <= old(self).entries().len(),
            forall|j: int| 0 <= j < old(self).entries().len() ==> #[trigger] old(self).entries()[j].0 != k@,
        ensures
            final(self).entries() == old(self).entries().insert(i as int, (k@, v)),
            distinct_keys(final(self).entries()),
    {
        proof {
            use_type_invariant(&*self);
        }
        let ghost kv = k@;
        let mut entries = Vec::new();
        std::mem::swap(&mut entries, &mut self.entries);
        entries.insert(i, (k, v));
        proof {
            let e = old(self).entries().insert(i as int, (kv, v));
            assert(entries@.map_values(|p: (String, V)| (p.0@, p.1)) =~= e);
            assert forall|a: int, b: int| 0 <= a < b < e.len() implies e[a].0 != e[b].0 by {
                if a != i && b != i {
                    let a2 = if a < i { a } else { a - 1 };
                    let b2 = if b < i { b } else { b - 1 };
                    assert(e[a] == old(self).entries()[a2] && e[b] == old(self).entries()[b2]);
                } else if a == i {
                    assert(e[b] == old(self).entries()[b - 1]);
                } else {
                    assert(e[a] == old(self).entries()[a]);
                }
            }
        }
        self.entries = entries;
    }
}

} // verus!
