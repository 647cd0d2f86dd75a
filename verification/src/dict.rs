//! Maps keyed by text, kept as association lists: a key occurs at most once and
//! entries keep the order in which their keys were first inserted.
use vstd::prelude::*;

verus! {

/// The map that results from inserting the pairs of `p` from first to last.
pub open spec fn map_of<V>(p: Seq<(Seq<char>, V)>) -> Map<Seq<char>, V>
    decreases p.len(),
{
    if p.len() == 0 {
        Map::empty()
    } else {
        map_of(p.drop_last()).insert(p.last().0, p.last().1)
    }
}

/// No key occurs twice in `p`.
pub open spec fn unique_keys<V>(p: Seq<(Seq<char>, V)>) -> bool {
    forall|i: int, j: int| 0 <= i < j < p.len() ==> p[i].0 != p[j].0
}

pub proof fn lemma_map_of_contains<V>(p: Seq<(Seq<char>, V)>, k: Seq<char>)
    ensures
        map_of(p).contains_key(k) <==> exists|i: int| 0 <= i < p.len() && p[i].0 == k,
    decreases p.len(),
{
    if p.len() > 0 {
        lemma_map_of_contains(p.drop_last(), k);
        if map_of(p.drop_last()).contains_key(k) {
            let i = choose|i: int| 0 <= i < p.drop_last().len() && p.drop_last()[i].0 == k;
            assert(p[i].0 == k);
        }
        if exists|i: int| 0 <= i < p.len() && p[i].0 == k {
            let i = choose|i: int| 0 <= i < p.len() && p[i].0 == k;
            if i < p.len() - 1 {
                assert(p.drop_last()[i].0 == k);
            }
        }
    }
}

pub proof fn lemma_map_of_value<V>(p: Seq<(Seq<char>, V)>, i: int)
    requires
        unique_keys(p),
        0 <= i < p.len(),
    ensures
        map_of(p).contains_key(p[i].0),
        map_of(p)[p[i].0] == p[i].1,
    decreases p.len(),
{
    if i < p.len() - 1 {
        lemma_map_of_value(p.drop_last(), i);
        assert(p.last().0 != p[i].0);
    }
}

/// Everything there is to know about the map of a sequence with unique keys.
pub proof fn lemma_map_of_entries<V>(p: Seq<(Seq<char>, V)>)
    requires
        unique_keys(p),
    ensures
        forall|i: int|
            0 <= i < p.len() ==> map_of(p).contains_key(#[trigger] p[i].0) && map_of(p)[p[i].0]
                == p[i].1,
        forall|k: Seq<char>|
            #[trigger] map_of(p).contains_key(k) ==> exists|i: int| 0 <= i < p.len() && p[i].0 == k,
        map_of(p).dom().finite(),
        map_of(p).len() == p.len(),
    decreases p.len(),
{
    assert forall|i: int| 0 <= i < p.len() implies map_of(p).contains_key(#[trigger] p[i].0)
        && map_of(p)[p[i].0] == p[i].1 by {
        lemma_map_of_value(p, i);
    }
    assert forall|k: Seq<char>| #[trigger] map_of(p).contains_key(k) implies exists|i: int|
        0 <= i < p.len() && p[i].0 == k by {
        lemma_map_of_contains(p, k);
    }
    if p.len() > 0 {
        lemma_map_of_entries(p.drop_last());
        if map_of(p.drop_last()).contains_key(p.last().0) {
            lemma_map_of_contains(p.drop_last(), p.last().0);
            let i = choose|i: int| 0 <= i < p.drop_last().len() && p.drop_last()[i].0 == p.last().0;
            assert(p[i].0 == p[p.len() - 1].0);
        }
    }
}

proof fn lemma_map_of_update<V>(p: Seq<(Seq<char>, V)>, i: int, v: V)
    requires
        unique_keys(p),
        0 <= i < p.len(),
    ensures
        map_of(p.update(i, (p[i].0, v))) == map_of(p).insert(p[i].0, v),
    decreases p.len(),
{
    let q = p.update(i, (p[i].0, v));
    if i == p.len() - 1 {
        assert(q.drop_last() =~= p.drop_last());
        lemma_map_of_contains(p.drop_last(), p[i].0);
        assert(map_of(q) =~= map_of(p).insert(p[i].0, v));
    } else {
        lemma_map_of_update(p.drop_last(), i, v);
        assert(q.drop_last() =~= p.drop_last().update(i, (p[i].0, v)));
        assert(p.last().0 != p[i].0);
        assert(map_of(q) =~= map_of(p).insert(p[i].0, v));
    }
}

proof fn lemma_map_of_remove<V>(p: Seq<(Seq<char>, V)>, i: int)
    requires
        unique_keys(p),
        0 <= i < p.len(),
    ensures
        map_of(p.remove(i)) == map_of(p).remove(p[i].0),
    decreases p.len(),
{
    let q = p.remove(i);
    if i == p.len() - 1 {
        assert(q =~= p.drop_last());
        lemma_map_of_contains(p.drop_last(), p[i].0);
        if map_of(p.drop_last()).contains_key(p[i].0) {
            let j = choose|j: int| 0 <= j < p.drop_last().len() && p.drop_last()[j].0 == p[i].0;
            assert(p[j].0 == p[i].0);
        }
        assert(map_of(q) =~= map_of(p).remove(p[i].0));
    } else {
        lemma_map_of_remove(p.drop_last(), i);
        assert(q.drop_last() =~= p.drop_last().remove(i));
        assert(q.last() == p.last());
        assert(p.last().0 != p[i].0);
        assert(map_of(q) =~= map_of(p).remove(p[i].0));
    }
}

/// A map from text keys to values.
#[derive(Debug)]
pub struct Dict<V> {
    pub(crate) entries: Vec<(String, V)>,
}

impl<V> Dict<V> {
    /// The entries, keys by their text, in order.
    pub closed spec fn pairs(&self) -> Seq<(Seq<char>, V)> {
        self.entries@.map_values(|e: (String, V)| (e.0@, e.1))
    }

    #[verifier::type_invariant]
    closed spec fn keys_are_unique(&self) -> bool {
        unique_keys(self.pairs())
    }

    /// How the entries stand for the pairs.
    pub(crate) proof fn lemma_pairs_of_entries(&self)
        ensures
            self.pairs().len() == self.entries@.len(),
            forall|i: int|
                0 <= i < self.entries@.len() ==> #[trigger] self.pairs()[i] == (
                    self.entries@[i].0@,
                    self.entries@[i].1,
                ),
    {
    }

    /// The map the entries stand for.
    pub open spec fn view(&self) -> Map<Seq<char>, V> {
        map_of(self.pairs())
    }

    /// An empty map.
    pub fn new() -> (r: Self)
        ensures
            r.pairs() == Seq::<(Seq<char>, V)>::empty(),
            r@ == Map::<Seq<char>, V>::empty(),
    {
        let r = Dict { entries: Vec::new() };
        assert(r.pairs() =~= Seq::<(Seq<char>, V)>::empty());
        r
    }

    /// The number of entries.
    pub fn len(&self) -> (r: usize)
        ensures
            r == self.pairs().len(),
            r == self@.len(),
            unique_keys(self.pairs()),
            self@.dom().finite(),
    {
        proof {
            use_type_invariant(self);
            lemma_map_of_entries(self.pairs());
        }
        self.entries.len()
    }

    /// The key and value of the entry at position `i`.
    pub fn entry_at(&self, i: usize) -> (r: (&String, &V))
        requires
            i < self.pairs().len(),
        ensures
            r.0@ == self.pairs()[i as int].0,
            *r.1 == self.pairs()[i as int].1,
            self@.contains_key(r.0@),
            self@[r.0@] == *r.1,
    {
        proof {
            use_type_invariant(self);
            lemma_map_of_value(self.pairs(), i as int);
        }
        let e = &self.entries[i];
        (&e.0, &e.1)
    }

    fn find(&self, k: &str) -> (r: Option<usize>)
        ensures
            r matches Some(i) ==> i < self.pairs().len() && self.pairs()[i as int].0 == k@,
            r is None ==> !self@.contains_key(k@),
    {
        let n = self.entries.len();
        let mut i: usize = 0;
        while i < n
            invariant
                n == self.entries@.len(),
                i <= n,
                forall|j: int| 0 <= j < i ==> self.pairs()[j].0 != k@,
            decreases n - i,
        {
            if crate::text::str_eq(self.entries[i].0.as_str(), k) {
                return Some(i);
            }
            i = i + 1;
        }
        proof {
            lemma_map_of_contains(self.pairs(), k@);
        }
        None
    }
    /// Whether `k` has a value.
    pub fn contains_key(&self, k: &str) -> (r: bool)
        ensures
            r == self@.contains_key(k@),
    {
        proof {
            use_type_invariant(self);
        }
        match self.find(k) {
            Some(i) => {
                proof {
                    lemma_map_of_value(self.pairs(), i as int);
                }
                true
            },
            None => false,
        }
    }

    /// The value of `k`, if it has one.
    pub fn get(&self, k: &str) -> (r: Option<&V>)
        ensures
            r matches Some(v) ==> self@.contains_key(k@) && *v == self@[k@],
            r is None ==> !self@.contains_key(k@),
    {
        proof {
            use_type_invariant(self);
        }
        match self.find(k) {
            Some(i) => {
                proof {
                    lemma_map_of_value(self.pairs(), i as int);
                }
                Some(&self.entries[i].1)
            },
            None => None,
        }
    }

    /// Sets the value of `k`; an existing entry keeps its place, a new one goes last.
    pub fn insert(&mut self, k: String, v: V)
        ensures
            final(self)@ == old(self)@.insert(k@, v),
            old(self)@.contains_key(k@) ==> final(self).pairs().len() == old(self).pairs().len(),
            !old(self)@.contains_key(k@) ==> final(self).pairs() == old(self).pairs().push((k@, v)),
    {
        proof {
            use_type_invariant(&*self);
        }
        match self.find(k.as_str()) {
            Some(i) => {
                proof {
                    lemma_map_of_update(self.pairs(), i as int, v);
                    lemma_map_of_value(self.pairs(), i as int);
                }
                let ghost old_pairs = self.pairs();
                let mut es: Vec<(String, V)> = Vec::new();
                std::mem::swap(&mut es, &mut self.entries);
                es.set(i, (k, v));
                assert(es@.map_values(|e: (String, V)| (e.0@, e.1)) =~= old_pairs.update(i as int, (old_pairs[i as int].0, v)));
                self.entries = es;
                assert(self.pairs() =~= old_pairs.update(i as int, (old_pairs[i as int].0, v)));
            },
            None => {
                let ghost old_pairs = self.pairs();
                proof {
                    lemma_map_of_contains(old_pairs, k@);
                    assert forall|a: int| 0 <= a < old_pairs.len() implies old_pairs[a].0 != k@ by {
                        if old_pairs[a].0 == k@ {
                            assert(exists|i: int| 0 <= i < old_pairs.len() && old_pairs[i].0 == k@);
                        }
                    }
                }
                let mut es: Vec<(String, V)> = Vec::new();
                std::mem::swap(&mut es, &mut self.entries);
                es.push((k, v));
                assert(es@.map_values(|e: (String, V)| (e.0@, e.1)) =~= old_pairs.push((k@, v)));
                assert forall|a: int, b: int| 0 <= a < b < old_pairs.len() + 1 implies old_pairs.push((k@, v))[a].0 != old_pairs.push((k@, v))[b].0 by {
                    if b == old_pairs.len() {
                        assert(old_pairs[a].0 != k@);
                    }
                }
                self.entries = es;
                assert(self.pairs() =~= old_pairs.push((k@, v)));
                assert(old_pairs.push((k@, v)).drop_last() =~= old_pairs);
            },
        }
    }

    /// Takes the entry of `k` out, returning its value.
    pub fn remove(&mut self, k: &str) -> (r: Option<V>)
        ensures
            final(self)@ == old(self)@.remove(k@),
            r matches Some(v) ==> old(self)@.contains_key(k@) && v == old(self)@[k@],
            r is None ==> !old(self)@.contains_key(k@),
    {
        proof {
            use_type_invariant(&*self);
        }
        match self.find(k) {
            Some(i) => {
                let ghost old_pairs = self.pairs();
                proof {
                    lemma_map_of_value(old_pairs, i as int);
                    lemma_map_of_remove(old_pairs, i as int);
                }
                let mut es: Vec<(String, V)> = Vec::new();
                std::mem::swap(&mut es, &mut self.entries);
                let e = es.remove(i);
                assert(es@.map_values(|e: (String, V)| (e.0@, e.1)) =~= old_pairs.remove(i as int));
                assert forall|a: int, b: int| 0 <= a < b < old_pairs.len() - 1 implies old_pairs.remove(i as int)[a].0 != old_pairs.remove(i as int)[b].0 by {
                    let a2 = if a < i { a } else { a + 1 };
                    let b2 = if b < i { b } else { b + 1 };
                    assert(old_pairs.remove(i as int)[a] == old_pairs[a2]);
                    assert(old_pairs.remove(i as int)[b] == old_pairs[b2]);
                }
                self.entries = es;
                assert(self.pairs() =~= old_pairs.remove(i as int));
                Some(e.1)
            },
            None => {
                assert(old(self)@.remove(k@) =~= old(self)@);
                None
            },
        }
    }

    /// The entries, in order.
    pub fn into_entries(self) -> (r: Vec<(String, V)>)
        ensures
            r@.len() == self.pairs().len(),
            forall|i: int|
                0 <= i < r@.len() ==> (#[trigger] r@[i]).0@ == self.pairs()[i].0 && r@[i].1
                    == self.pairs()[i].1,
            unique_keys(self.pairs()),
    {
        proof {
            use_type_invariant(&self);
        }
        self.entries
    }
}

impl<V: Clone> Clone for Dict<V> {
    /// A copy made entry by entry; the keys and their order are kept.
    fn clone(&self) -> (r: Self)
        ensures
            r.pairs().len() == self.pairs().len(),
            forall|i: int| 0 <= i < r.pairs().len() ==> (#[trigger] r.pairs()[i]).0 == self.pairs()[i].0,
    {
        let n = self.len();
        let mut r: Dict<V> = Dict::new();
        let mut i: usize = 0;
        while i < n
            invariant
                n == self.pairs().len(),
                unique_keys(self.pairs()),
                i <= n,
                r.pairs().len() == i,
                forall|j: int| 0 <= j < i ==> (#[trigger] r.pairs()[j]).0 == self.pairs()[j].0,
            decreases n - i,
        {
            let (k, v) = self.entry_at(i);
            let _ = r.len();
            proof {
                assert(!r@.contains_key(k@)) by {
                    lemma_map_of_contains(r.pairs(), k@);
                    if r@.contains_key(k@) {
                        let j = choose|j: int| 0 <= j < r.pairs().len() && r.pairs()[j].0 == k@;
                        assert(self.pairs()[j].0 == self.pairs()[i as int].0);
                    }
                }
            }
            r.insert(k.clone(), v.clone());
            i = i + 1;
        }
        r
    }
}

} // verus!
