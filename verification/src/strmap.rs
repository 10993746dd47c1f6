//! A map keyed by text. Its entries keep the order in which their keys were
//! first inserted; no key occurs twice.
use crate::text::same;
use vstd::prelude::*;

verus! {

/// A map from text to values.
#[derive(Debug)]
pub struct StrMap<V> {
    entries: Vec<(String, V)>,
}

/// The index of the first pair with the given key, or the length.
pub open spec fn position<V>(pairs: Seq<(Seq<char>, V)>, key: Seq<char>) -> nat
    decreases pairs.len(),
{
    if pairs.len() == 0 || pairs[0].0 == key {
        0
    } else {
        1 + position(pairs.drop_first(), key)
    }
}

/// No key stands twice.
pub open spec fn keys_distinct<V>(pairs: Seq<(Seq<char>, V)>) -> bool {
    forall|i: int, j: int| #![trigger pairs[i], pairs[j]]
        0 <= i < j < pairs.len() ==> pairs[i].0 != pairs[j].0
}

/// Some pair has the key.
pub open spec fn has_key<V>(pairs: Seq<(Seq<char>, V)>, key: Seq<char>) -> bool {
    position(pairs, key) < pairs.len()
}

/// The value of the pair with the key.
pub open spec fn value_at<V>(pairs: Seq<(Seq<char>, V)>, key: Seq<char>) -> V {
    pairs[position(pairs, key) as int].1
}

/// The map that the pairs describe.
pub open spec fn as_map<V>(pairs: Seq<(Seq<char>, V)>) -> Map<Seq<char>, V> {
    Map::new(|k: Seq<char>| has_key(pairs, k), |k: Seq<char>| value_at(pairs, k))
}

/// The pairs after a value was put under a key: in place where the key is
/// there, at the end where it is not.
pub open spec fn put<V>(pairs: Seq<(Seq<char>, V)>, key: Seq<char>, value: V) -> Seq<
    (Seq<char>, V),
> {
    if has_key(pairs, key) {
        pairs.update(position(pairs, key) as int, (key, value))
    } else {
        pairs.push((key, value))
    }
}

/// The pairs after the one with the key was taken out.
pub open spec fn without<V>(pairs: Seq<(Seq<char>, V)>, key: Seq<char>) -> Seq<(Seq<char>, V)> {
    if has_key(pairs, key) {
        pairs.remove(position(pairs, key) as int)
    } else {
        pairs
    }
}

/// Where the keys are the same, so are the positions.
pub proof fn lemma_position_keys<V, W>(a: Seq<(Seq<char>, V)>, b: Seq<(Seq<char>, W)>, key: Seq<char>)
    requires
        a.len() == b.len(),
        forall|i: int| 0 <= i < a.len() ==> (#[trigger] a[i]).0 == b[i].0,
    ensures
        position(a, key) == position(b, key),
    decreases a.len(),
{
    if a.len() > 0 {
        assert(a[0].0 == b[0].0);
        let (s, t) = (a.drop_first(), b.drop_first());
        assert forall|i: int| 0 <= i < s.len() implies (#[trigger] s[i]).0 == t[i].0 by {
            assert(a[i + 1].0 == b[i + 1].0);
        }
        lemma_position_keys(s, t, key);
    }
}

/// `position` gives the first pair with the key.
pub proof fn lemma_position<V>(pairs: Seq<(Seq<char>, V)>, key: Seq<char>)
    ensures
        position(pairs, key) <= pairs.len(),
        position(pairs, key) < pairs.len() ==> pairs[position(pairs, key) as int].0 == key,
        forall|i: int| 0 <= i < position(pairs, key) ==> (#[trigger] pairs[i]).0 != key,
    decreases pairs.len(),
{
    if pairs.len() > 0 && pairs[0].0 != key {
        let t = pairs.drop_first();
        lemma_position(t, key);
        assert forall|i: int| 0 <= i < position(pairs, key) implies (#[trigger] pairs[i]).0
            != key by {
            if i > 0 {
                assert(pairs[i] == t[i - 1]);
            }
        }
    }
}

/// Where keys are distinct, an index with the key is the position of the key.
pub proof fn lemma_position_at<V>(pairs: Seq<(Seq<char>, V)>, i: int)
    requires
        keys_distinct(pairs),
        0 <= i < pairs.len(),
    ensures
        position(pairs, pairs[i].0) == i,
        has_key(pairs, pairs[i].0),
        value_at(pairs, pairs[i].0) == pairs[i].1,
{
    lemma_position(pairs, pairs[i].0);
    let p = position(pairs, pairs[i].0) as int;
    if p < i {
        assert(pairs[p].0 == pairs[i].0);
    }
    if i < p {
        assert(pairs[i].0 != pairs[i].0);
    }
}

/// Where keys are distinct, the map has an entry for each pair.
pub proof fn lemma_size<V>(pairs: Seq<(Seq<char>, V)>)
    requires
        keys_distinct(pairs),
    ensures
        as_map(pairs).dom().finite(),
        as_map(pairs).dom().len() == pairs.len(),
    decreases pairs.len(),
{
    if pairs.len() == 0 {
        assert(as_map(pairs).dom() =~= Set::empty());
    } else {
        let rest = pairs.drop_last();
        let (key, value) = pairs.last();
        assert forall|i: int, j: int| #![trigger rest[i], rest[j]]
            0 <= i < j < rest.len() implies rest[i].0 != rest[j].0 by {
            assert(rest[i] == pairs[i] && rest[j] == pairs[j]);
        }
        lemma_size(rest);
        lemma_position(rest, key);
        if has_key(rest, key) {
            let p = position(rest, key) as int;
            assert(pairs[p].0 == pairs[pairs.len() - 1].0);
        }
        lemma_put(rest, key, value);
        assert(put(rest, key, value) =~= pairs);
        assert(as_map(pairs).dom() =~= as_map(rest).dom().insert(key));
    }
}

/// `put` keeps keys distinct and is insertion on the map.
pub proof fn lemma_put<V>(pairs: Seq<(Seq<char>, V)>, key: Seq<char>, value: V)
    requires
        keys_distinct(pairs),
    ensures
        keys_distinct(put(pairs, key, value)),
        as_map(put(pairs, key, value)) == as_map(pairs).insert(key, value),
{
    let after = put(pairs, key, value);
    let p = position(pairs, key) as int;
    lemma_position(pairs, key);
    assert forall|i: int, j: int| #![trigger after[i], after[j]]
        0 <= i < j < after.len() implies after[i].0 != after[j].0 by {
        if p < pairs.len() {
            assert(after[i].0 == pairs[i].0);
            assert(after[j].0 == pairs[j].0);
        } else {
            if j == pairs.len() {
                assert(after[i] == pairs[i]);
                assert(pairs[i].0 != key);
            } else {
                assert(after[i] == pairs[i]);
                assert(after[j] == pairs[j]);
            }
        }
    }
    assert forall|k: Seq<char>| has_key(after, k) == (has_key(pairs, k) || k == key) && (
    has_key(after, k) ==> value_at(after, k) == (if k == key {
        value
    } else {
        value_at(pairs, k)
    })) by {
        lemma_position(pairs, k);
        lemma_position(after, k);
        if k == key {
            let q = if p < pairs.len() {
                p
            } else {
                pairs.len() as int
            };
            assert(after[q] == (key, value));
            lemma_position_at(after, q);
        } else {
            if has_key(pairs, k) {
                let q = position(pairs, k) as int;
                assert(after[q] == pairs[q]);
                lemma_position_at(after, q);
            } else if has_key(after, k) {
                let q = position(after, k) as int;
                assert(after[q].0 == k);
                if q < pairs.len() && q != p {
                    assert(pairs[q] == after[q]);
                    lemma_position_at(pairs, q);
                }
            }
        }
    }
    assert(as_map(after) =~= as_map(pairs).insert(key, value));
}

/// `without` keeps keys distinct and is removal on the map.
pub proof fn lemma_without<V>(pairs: Seq<(Seq<char>, V)>, key: Seq<char>)
    requires
        keys_distinct(pairs),
    ensures
        keys_distinct(without(pairs, key)),
        as_map(without(pairs, key)) == as_map(pairs).remove(key),
{
    let after = without(pairs, key);
    let p = position(pairs, key) as int;
    lemma_position(pairs, key);
    if p < pairs.len() {
        assert forall|i: int, j: int| #![trigger after[i], after[j]]
            0 <= i < j < after.len() implies after[i].0 != after[j].0 by {
            let a = if i < p {
                i
            } else {
                i + 1
            };
            let b = if j < p {
                j
            } else {
                j + 1
            };
            assert(after[i] == pairs[a]);
            assert(after[j] == pairs[b]);
        }
        assert forall|k: Seq<char>| has_key(after, k) == (has_key(pairs, k) && k != key) && (
        has_key(after, k) ==> value_at(after, k) == value_at(pairs, k)) by {
            lemma_position(pairs, k);
            lemma_position(after, k);
            if has_key(after, k) {
                let q = position(after, k) as int;
                let a = if q < p {
                    q
                } else {
                    q + 1
                };
                assert(after[q] == pairs[a]);
                lemma_position_at(pairs, a);
            }
            if has_key(pairs, k) && k != key {
                let a = position(pairs, k) as int;
                let q = if a < p {
                    a
                } else {
                    a - 1
                };
                assert(after[q] == pairs[a]);
                lemma_position_at(after, q);
            }
        }
    }
    assert(as_map(after) =~= as_map(pairs).remove(key));
}

impl<V> StrMap<V> {
    /// The entries in order.
    pub closed spec fn pairs(&self) -> Seq<(Seq<char>, V)> {
        Seq::new(self.entries@.len(), |i: int| (self.entries@[i].0@, self.entries@[i].1))
    }

    /// No key occurs twice.
    pub open spec fn wf(&self) -> bool {
        keys_distinct(self.pairs())
    }

    /// The empty map.
    pub fn new() -> (r: Self)
        ensures
            r.wf(),
            r.pairs() == Seq::<(Seq<char>, V)>::empty(),
            r@ == Map::<Seq<char>, V>::empty(),
    {
        let r = StrMap { entries: Vec::new() };
        assert(r.pairs() =~= Seq::<(Seq<char>, V)>::empty());
        assert(r@ =~= Map::<Seq<char>, V>::empty());
        r
    }

    /// The number of entries.
    pub fn len(&self) -> (r: usize)
        ensures
            r == self.pairs().len(),
    {
        self.entries.len()
    }

    /// The index of the entry with the key, or the number of entries.
    fn seek(&self, key: &str) -> (r: usize)
        ensures
            r == position(self.pairs(), key@),
            r <= self.pairs().len(),
    {
        let mut i: usize = 0;
        assert(self.pairs().skip(0) == self.pairs());
        while i < self.entries.len() && !same(self.entries[i].0.as_str(), key)
            invariant
                i <= self.entries@.len(),
                position(self.pairs(), key@) == i + position(self.pairs().skip(i as int), key@),
            decreases self.entries@.len() - i,
        {
            assert(self.pairs().skip(i as int).drop_first() == self.pairs().skip(i + 1));
            i = i + 1;
        }
        i
    }

    /// Whether the key is there.
    pub fn contains_key(&self, key: &str) -> (r: bool)
        ensures
            r == self@.dom().contains(key@),
    {
        self.seek(key) < self.entries.len()
    }

    /// The value under the key.
    pub fn get(&self, key: &str) -> (r: Option<&V>)
        ensures
            r is Some == self@.dom().contains(key@),
            r matches Some(v) ==> *v == self@[key@],
    {
        let i = self.seek(key);
        if i < self.entries.len() {
            Some(&self.entries[i].1)
        } else {
            None
        }
    }

    /// The key of the entry at an index.
    pub fn key_at(&self, i: usize) -> (r: &String)
        requires
            i < self.pairs().len(),
        ensures
            r@ == self.pairs()[i as int].0,
    {
        &self.entries[i].0
    }

    /// The value of the entry at an index.
    pub fn value_at(&self, i: usize) -> (r: &V)
        requires
            i < self.pairs().len(),
        ensures
            *r == self.pairs()[i as int].1,
    {
        &self.entries[i].1
    }

    /// Puts a value under a key.
    pub fn insert(&mut self, key: String, value: V)
        requires
            old(self).wf(),
        ensures
            final(self).wf(),
            final(self).pairs() == put(old(self).pairs(), key@, value),
            final(self)@ == old(self)@.insert(key@, value),
    {
        let i = self.seek(key.as_str());
        let ghost before = self.pairs();
        proof {
            lemma_put(before, key@, value);
        }
        if i < self.entries.len() {
            self.entries[i] = (key, value);
        } else {
            self.entries.push((key, value));
        }
        assert(self.pairs() =~= put(before, key@, value));
    }

    /// The value under the key, to be changed in place.
    pub fn get_mut(&mut self, key: &str) -> (r: Option<&mut V>)
        requires
            old(self).wf(),
        ensures
            r is Some == old(self)@.dom().contains(key@),
            match r {
                Some(v) => {
                    &&& *v == old(self)@[key@]
                    &&& final(self).pairs() == put(old(self).pairs(), key@, *final(v))
                    &&& final(self)@ == old(self)@.insert(key@, *final(v))
                    &&& final(self).wf()
                },
                None => *final(self) == *old(self),
            },
    {
        let i = self.seek(key);
        let ghost before = self.pairs();
        if i < self.entries.len() {
            let ghost k = self.entries@[i as int].0;
            let ghost es = self.entries@;
            proof {
                lemma_position(before, key@);
                assert forall|m: StrMap<V>, x: V|
                    m.entries@ == es.update(i as int, (k, x)) implies #[trigger] m.pairs()
                    == #[trigger] put(before, key@, x) && m.wf() && m@ == as_map(before).insert(
                    key@,
                    x,
                ) by {
                    lemma_put(before, key@, x);
                    assert(m.pairs() =~= put(before, key@, x));
                }
            }
            let v = &mut self.entries[i].1;
            Some(v)
        } else {
            None
        }
    }

    /// Takes the entry with the key out.
    pub fn remove(&mut self, key: &str) -> (r: Option<V>)
        requires
            old(self).wf(),
        ensures
            final(self).wf(),
            final(self).pairs() == without(old(self).pairs(), key@),
            final(self)@ == old(self)@.remove(key@),
            r is Some == old(self)@.dom().contains(key@),
            r matches Some(v) ==> v == old(self)@[key@],
    {
        let i = self.seek(key);
        let ghost before = self.pairs();
        proof {
            lemma_without(before, key@);
        }
        if i < self.entries.len() {
            let e = self.entries.remove(i);
            assert(self.pairs() =~= without(before, key@));
            Some(e.1)
        } else {
            None
        }
    }
}

impl<V> View for StrMap<V> {
    type V = Map<Seq<char>, V>;

    open spec fn view(&self) -> Map<Seq<char>, V> {
        as_map(self.pairs())
    }
}

} // verus!
