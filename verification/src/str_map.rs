//! A map from string keys to values, backed by a vector of key-value pairs
//! whose keys are pairwise distinct. Inserting at a key that is already
//! present overwrites that entry in place; inserting at a fresh key appends.
//! The view of the map is the mathematical `Map` from key contents to values.

use vstd::pervasive::VecAdditionalExecFns;
use vstd::prelude::*;

verus! {

#[derive(Debug)]
pub struct StrMap<V> {
    pairs: Vec<(String, V)>,
}

/// The map denoted by a sequence of key-value pairs; a later pair wins over
/// an earlier one with the same key.
pub open spec fn map_of<V>(s: Seq<(String, V)>) -> Map<Seq<char>, V>
    decreases s.len(),
{
    if s.len() == 0 {
        Map::empty()
    } else {
        map_of(s.drop_last()).insert(s.last().0@, s.last().1)
    }
}

/// Pairwise-distinct keys, by character content.
pub open spec fn distinct_keys<V>(s: Seq<(String, V)>) -> bool {
    forall|i: int, j: int| #![trigger s[i], s[j]] 0 <= i < j < s.len() ==> s[i].0@ != s[j].0@
}

impl<V> StrMap<V> {
    /// The key-value pairs, oldest first.
    pub closed spec fn kv(self) -> Seq<(String, V)> {
        self.pairs@
    }

    /// Keys are pairwise distinct. Constructors establish this and methods
    /// preserve it.
    pub open spec fn inv(self) -> bool {
        distinct_keys(self.kv())
    }
}

impl<V> View for StrMap<V> {
    type V = Map<Seq<char>, V>;

    open spec fn view(&self) -> Map<Seq<char>, V> {
        map_of(self.kv())
    }
}

impl<V: DeepView> DeepView for StrMap<V> {
    type V = Map<Seq<char>, <V as DeepView>::V>;

    open spec fn deep_view(&self) -> Map<Seq<char>, <V as DeepView>::V> {
        Map::new(
            |k: Seq<char>| self.view().contains_key(k),
            |k: Seq<char>| self.view()[k].deep_view(),
        )
    }
}

proof fn lemma_distinct_drop_last<V>(s: Seq<(String, V)>)
    requires
        distinct_keys(s),
        s.len() > 0,
    ensures
        distinct_keys(s.drop_last()),
{
    assert forall|i: int, j: int|
        #![trigger s.drop_last()[i], s.drop_last()[j]]
        0 <= i < j < s.drop_last().len() implies s.drop_last()[i].0@ != s.drop_last()[j].0@ by {
        assert(s.drop_last()[i] == s[i]);
        assert(s.drop_last()[j] == s[j]);
    }
}

/// A key is in the denoted map exactly when some pair holds it.
pub proof fn lemma_map_of_contains<V>(s: Seq<(String, V)>, k: Seq<char>)
    ensures
        map_of(s).contains_key(k) <==> exists|i: int| 0 <= i < s.len() && (#[trigger] s[i]).0@ == k,
    decreases s.len(),
{
    if s.len() == 0 {
    } else {
        lemma_map_of_contains(s.drop_last(), k);
        if s.last().0@ == k {
            assert((s[s.len() - 1]).0@ == k);
        } else {
            assert(forall|i: int| 0 <= i < s.len() - 1 ==> #[trigger] s.drop_last()[i] == s[i]);
            if exists|i: int| 0 <= i < s.len() && (#[trigger] s[i]).0@ == k {
                let i = choose|i: int| 0 <= i < s.len() && (#[trigger] s[i]).0@ == k;
                assert(i < s.len() - 1);
                assert(s.drop_last()[i].0@ == k);
            }
        }
    }
}

/// With distinct keys, each pair's key maps to that pair's value.
pub proof fn lemma_map_of_index<V>(s: Seq<(String, V)>, i: int)
    requires
        distinct_keys(s),
        0 <= i < s.len(),
    ensures
        map_of(s).contains_key(s[i].0@),
        map_of(s)[s[i].0@] == s[i].1,
    decreases s.len(),
{
    if i == s.len() - 1 {
    } else {
        lemma_distinct_drop_last(s);
        lemma_map_of_index(s.drop_last(), i);
        assert(s.drop_last()[i] == s[i]);
        assert(s[i].0@ != s[s.len() - 1].0@);
    }
}

/// With distinct keys, the denoted map has exactly one entry per pair.
pub proof fn lemma_map_of_len<V>(s: Seq<(String, V)>)
    requires
        distinct_keys(s),
    ensures
        map_of(s).dom().finite(),
        map_of(s).dom().len() == s.len(),
    decreases s.len(),
{
    if s.len() == 0 {
        assert(map_of(s).dom() =~= Set::<Seq<char>>::empty());
    } else {
        lemma_distinct_drop_last(s);
        lemma_map_of_len(s.drop_last());
        lemma_map_of_contains(s.drop_last(), s.last().0@);
        if map_of(s.drop_last()).contains_key(s.last().0@) {
            let i = choose|i: int|
                0 <= i < s.drop_last().len() && (#[trigger] s.drop_last()[i]).0@ == s.last().0@;
            assert(s[i] == s.drop_last()[i]);
            assert(s[i].0@ == s[s.len() - 1].0@);
            assert(false);
        }
    }
}

/// Replacing the pair at a position that holds a key is an insert at it.
pub proof fn lemma_map_of_update<V>(s: Seq<(String, V)>, i: int, p: (String, V))
    requires
        distinct_keys(s),
        0 <= i < s.len(),
        p.0@ == s[i].0@,
    ensures
        map_of(s.update(i, p)) == map_of(s).insert(p.0@, p.1),
    decreases s.len(),
{
    if i == s.len() - 1 {
        assert(s.update(i, p).drop_last() =~= s.drop_last());
        assert(s.update(i, p).last() == p);
        assert(map_of(s.drop_last()).insert(p.0@, p.1) =~= map_of(s.drop_last()).insert(
            s[i].0@,
            s[i].1,
        ).insert(p.0@, p.1));
    } else {
        lemma_distinct_drop_last(s);
        assert(s.update(i, p).drop_last() =~= s.drop_last().update(i, p));
        assert(s.drop_last()[i] == s[i]);
        lemma_map_of_update(s.drop_last(), i, p);
        assert(s.update(i, p).last() == s.last());
        assert(p.0@ != s.last().0@);
        assert(map_of(s.drop_last()).insert(p.0@, p.1).insert(s.last().0@, s.last().1) =~= map_of(
            s.drop_last(),
        ).insert(s.last().0@, s.last().1).insert(p.0@, p.1));
    }
}

/// Appending a pair is an insert of it.
pub proof fn lemma_map_of_push<V>(s: Seq<(String, V)>, p: (String, V))
    ensures
        map_of(s.push(p)) == map_of(s).insert(p.0@, p.1),
{
    assert(s.push(p).drop_last() =~= s);
    assert(s.push(p).last() == p);
}

/// An insert into the underlying map is an insert of the deep view.
pub proof fn lemma_deep_view_insert<V: DeepView>(
    pre: StrMap<V>,
    post: StrMap<V>,
    key: Seq<char>,
    value: V,
)
    requires
        post@ == pre@.insert(key, value),
    ensures
        post.deep_view() == pre.deep_view().insert(key, value.deep_view()),
{
    assert(post.deep_view() =~= pre.deep_view().insert(key, value.deep_view()));
}

/// The deep view has the same keys as the view, and deep values under them.
pub proof fn lemma_deep_view_facts<V: DeepView>(m: StrMap<V>)
    ensures
        forall|k: Seq<char>| #[trigger] m.deep_view().contains_key(k) <==> m@.contains_key(k),
        forall|k: Seq<char>| m@.contains_key(k) ==> #[trigger] m.deep_view()[k] == m@[k].deep_view(),
        m@.dom().finite() ==> m.deep_view().dom().finite() && m.deep_view().dom().len()
            == m@.dom().len(),
{
    assert(m.deep_view().dom() =~= m@.dom());
}

impl<V> StrMap<V> {
    /// An empty map.
    pub fn new() -> (r: Self)
        ensures
            r.inv(),
            r@ == Map::<Seq<char>, V>::empty(),
            r.kv() == Seq::<(String, V)>::empty(),
    {
        let m = StrMap { pairs: Vec::new() };
        proof {
            assert(m.kv() =~= Seq::<(String, V)>::empty());
        }
        m
    }

    /// How many entries the map holds.
    pub fn len(&self) -> (n: usize)
        requires
            self.inv(),
        ensures
            n as int == self@.dom().len(),
            n as int == self.kv().len(),
            self@.dom().finite(),
    {
        proof {
            lemma_map_of_len(self.kv());
        }
        self.pairs.len()
    }

    /// The pair stored at a position, for walking the entries.
    pub fn pair_at(&self, i: usize) -> (p: &(String, V))
        requires
            i < self.kv().len(),
        ensures
            *p == self.kv()[i as int],
    {
        &self.pairs[i]
    }

    /// Looks a key up.
    pub fn get<'a>(&'a self, key: &String) -> (r: Option<&'a V>)
        requires
            self.inv(),
        ensures
            match r {
                Some(v) => self@.contains_key(key@) && *v == self@[key@],
                None => !self@.contains_key(key@),
            },
    {
        let n: usize = self.pairs.len();
        let mut i: usize = 0;
        while i < n
            invariant
                i <= n,
                n == self.pairs.len(),
                distinct_keys(self.pairs@),
                self@ == map_of(self.pairs@),
                forall|j: int| 0 <= j < i ==> (#[trigger] self.pairs@[j]).0@ != key@,
            decreases n - i,
        {
            if self.pairs[i].0 == *key {
                proof {
                    lemma_map_of_index(self.pairs@, i as int);
                }
                return Some(&self.pairs[i].1);
            }
            i += 1;
        }
        proof {
            lemma_map_of_contains(self.pairs@, key@);
        }
        None
    }

    /// Whether a key is present.
    pub fn contains_key(&self, key: &String) -> (r: bool)
        requires
            self.inv(),
        ensures
            r == self@.contains_key(key@),
    {
        match self.get(key) {
            Some(_) => true,
            None => false,
        }
    }

    /// Inserts a value under a key, replacing the entry that held the key
    /// before, if any.
    pub fn insert(&mut self, key: String, value: V)
        requires
            old(self).inv(),
        ensures
            final(self).inv(),
            final(self)@ == old(self)@.insert(key@, value),
            old(self)@.contains_key(key@) ==> exists|i: int|
                0 <= i < old(self).kv().len() && (#[trigger] old(self).kv()[i]).0@ == key@
                    && final(self).kv() == old(self).kv().update(i, (key, value)),
            !old(self)@.contains_key(key@) ==> final(self).kv() == old(self).kv().push(
                (key, value),
            ),
    {
        let ghost newp = (key, value);
        let n: usize = self.pairs.len();
        let mut i: usize = 0;
        while i < n
            invariant
                i <= n,
                n == self.pairs.len(),
                *self == *old(self),
                newp == (key, value),
                distinct_keys(self.pairs@),
                forall|j: int| 0 <= j < i ==> (#[trigger] self.pairs@[j]).0@ != key@,
            decreases n - i,
        {
            if self.pairs[i].0 == key {
                proof {
                    lemma_map_of_index(self.pairs@, i as int);
                    lemma_map_of_update(self.pairs@, i as int, newp);
                    assert forall|a: int, b: int|
                        #![trigger self.pairs@.update(i as int, newp)[a], self.pairs@.update(i as int, newp)[b]]
                        0 <= a < b < self.pairs@.update(i as int, newp).len() implies self.pairs@.update(
                        i as int,
                        newp,
                    )[a].0@ != self.pairs@.update(i as int, newp)[b].0@ by {
                        assert(self.pairs@[a].0@ != self.pairs@[b].0@);
                    }
                }
                self.pairs.set(i, (key, value));
                return ;
            }
            i += 1;
        }
        proof {
            lemma_map_of_contains(self.pairs@, key@);
            lemma_map_of_push(self.pairs@, newp);
            assert forall|a: int, b: int|
                #![trigger self.pairs@.push(newp)[a], self.pairs@.push(newp)[b]]
                0 <= a < b < self.pairs@.push(newp).len() implies self.pairs@.push(newp)[a].0@
                != self.pairs@.push(newp)[b].0@ by {
                if b < self.pairs@.len() {
                    assert(self.pairs@[a].0@ != self.pairs@[b].0@);
                } else {
                    assert(self.pairs@.push(newp)[b] == newp);
                    assert(self.pairs@[a].0@ != key@);
                }
            }
        }
        self.pairs.push((key, value));
    }
}

} // verus!
