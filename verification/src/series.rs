//! An insertion-ordered store of values under unique text keys.
//!
//! A [`KeyedSeries`] stands where a hash map keyed by text would stand in
//! unverified code.  Its model is a finite [`Map`] from the key's characters
//! to the value's view; the order of first insertion is kept as well, so that
//! the entries can be walked by position.

use vstd::prelude::*;

verus! {

/// One key together with the value stored under it.
#[derive(Debug)]
pub struct SeriesEntry<V> {
    key: String,
    value: V,
}

/// Values stored under unique text keys, kept in the order in which the keys
/// first arrived.
#[derive(Debug)]
pub struct KeyedSeries<V> {
    entries: Vec<SeriesEntry<V>>,
}

/// The map that parallel sequences of distinct keys and of values stand for.
pub open spec fn map_of<T>(keys: Seq<Seq<char>>, values: Seq<T>) -> Map<Seq<char>, T> {
    Map::new(|k: Seq<char>| keys.contains(k), |k: Seq<char>| values[keys.index_of(k)])
}

/// With distinct keys, each key maps to the value at its own position, and
/// the map holds exactly the listed keys.
pub proof fn lemma_map_of_index<T>(keys: Seq<Seq<char>>, values: Seq<T>, i: int)
    requires
        keys.no_duplicates(),
        0 <= i < keys.len(),
    ensures
        map_of(keys, values).contains_key(keys[i]),
        map_of(keys, values)[keys[i]] == values[i],
        keys.index_of(keys[i]) == i,
{
    let j = keys.index_of(keys[i]);
    assert(keys.contains(keys[i]));
    assert(0 <= j < keys.len() && keys[j] == keys[i]);
}

/// Appending a fresh key with its value inserts the pair into the map.
pub proof fn lemma_map_of_push<T>(keys: Seq<Seq<char>>, values: Seq<T>, key: Seq<char>, value: T)
    requires
        keys.no_duplicates(),
        keys.len() == values.len(),
        !keys.contains(key),
    ensures
        keys.push(key).no_duplicates(),
        map_of(keys.push(key), values.push(value)) == map_of(keys, values).insert(key, value),
{
    let keys2 = keys.push(key);
    let values2 = values.push(value);
    assert(keys2.no_duplicates()) by {
        assert forall|i: int, j: int| 0 <= i < keys2.len() && 0 <= j < keys2.len() && i != j implies keys2[i]
            != keys2[j] by {
            if i < keys.len() && j < keys.len() {
                assert(keys[i] != keys[j]);
            } else if i < keys.len() {
                assert(keys.contains(keys[i]));
            } else {
                assert(keys.contains(keys[j]));
            }
        }
    }
    let lhs = map_of(keys2, values2);
    let rhs = map_of(keys, values).insert(key, value);
    assert forall|k: Seq<char>| lhs.contains_key(k) <==> rhs.contains_key(k) by {
        if keys2.contains(k) {
            let i = choose|i: int| 0 <= i < keys2.len() && keys2[i] == k;
            if i < keys.len() {
                assert(keys[i] == k);
            }
        }
        if keys.contains(k) {
            let i = choose|i: int| 0 <= i < keys.len() && keys[i] == k;
            assert(keys2[i] == k);
        }
        if k == key {
            assert(keys2[keys.len() as int] == k);
        }
    }
    assert forall|k: Seq<char>| lhs.contains_key(k) implies lhs[k] == rhs[k] by {
        let i = keys2.index_of(k);
        assert(0 <= i < keys2.len() && keys2[i] == k);
        if i < keys.len() {
            assert(keys[i] == k);
            lemma_map_of_index(keys, values, i);
        }
    }
    assert(lhs =~= rhs);
}

/// Replacing the value at one position replaces what that position's key
/// maps to.
pub proof fn lemma_map_of_update<T>(keys: Seq<Seq<char>>, values: Seq<T>, i: int, value: T)
    requires
        keys.no_duplicates(),
        keys.len() == values.len(),
        0 <= i < keys.len(),
    ensures
        map_of(keys, values.update(i, value)) == map_of(keys, values).insert(keys[i], value),
{
    let lhs = map_of(keys, values.update(i, value));
    let rhs = map_of(keys, values).insert(keys[i], value);
    assert forall|k: Seq<char>| lhs.contains_key(k) <==> rhs.contains_key(k) by {
        if k == keys[i] {
            assert(keys.contains(k));
        }
    }
    assert forall|k: Seq<char>| lhs.contains_key(k) implies lhs[k] == rhs[k] by {
        let j = keys.index_of(k);
        assert(0 <= j < keys.len() && keys[j] == k);
        lemma_map_of_index(keys, values, i);
    }
    assert(lhs =~= rhs);
}

/// The map that a list of pairs stands for when it is read front to back,
/// a later pair replacing an earlier one with the same key.
pub open spec fn map_of_pairs<T>(pairs: Seq<(Seq<char>, T)>) -> Map<Seq<char>, T>
    decreases pairs.len(),
{
    if pairs.len() == 0 {
        Map::empty()
    } else {
        map_of_pairs(pairs.drop_last()).insert(pairs.last().0, pairs.last().1)
    }
}

/// No two pairs of the list have the same key.
pub open spec fn distinct_keys<T>(pairs: Seq<(Seq<char>, T)>) -> bool {
    forall|i: int, j: int|
        0 <= i < pairs.len() && 0 <= j < pairs.len() && i != j ==> pairs[i].0 != pairs[j].0
}

/// What a list of pairs of a key and a value holds.
pub open spec fn pair_views<V: View>(pairs: Seq<(String, V)>) -> Seq<(Seq<char>, V::V)> {
    pairs.map_values(|p: (String, V)| (p.0@, p.1@))
}

/// The map of a list of pairs holds exactly the keys of the list, and with
/// distinct keys it maps each key to the value that the list pairs it with.
pub proof fn lemma_map_of_pairs<T>(pairs: Seq<(Seq<char>, T)>)
    ensures
        forall|k: Seq<char>|
            map_of_pairs(pairs).contains_key(k) <==> exists|i: int|
                0 <= i < pairs.len() && (#[trigger] pairs[i]).0 == k,
        distinct_keys(pairs) ==> forall|i: int|
            0 <= i < pairs.len() ==> map_of_pairs(pairs)[(#[trigger] pairs[i]).0] == pairs[i].1,
        map_of_pairs(pairs).dom().finite(),
    decreases pairs.len(),
{
    if pairs.len() > 0 {
        let front = pairs.drop_last();
        lemma_map_of_pairs(front);
        assert forall|k: Seq<char>|
            map_of_pairs(pairs).contains_key(k) <==> exists|i: int|
                0 <= i < pairs.len() && (#[trigger] pairs[i]).0 == k by {
            if map_of_pairs(pairs).contains_key(k) {
                if k == pairs.last().0 {
                    assert(pairs[pairs.len() - 1].0 == k);
                } else {
                    let i = choose|i: int| 0 <= i < front.len() && (#[trigger] front[i]).0 == k;
                    assert(pairs[i].0 == k);
                }
            }
            if exists|i: int| 0 <= i < pairs.len() && (#[trigger] pairs[i]).0 == k {
                let i = choose|i: int| 0 <= i < pairs.len() && (#[trigger] pairs[i]).0 == k;
                if i < front.len() {
                    assert(front[i].0 == k);
                }
            }
        }
        if distinct_keys(pairs) {
            assert(distinct_keys(front)) by {
                assert forall|i: int, j: int|
                    0 <= i < front.len() && 0 <= j < front.len() && i != j implies front[i].0
                    != front[j].0 by {
                    assert(front[i] == pairs[i] && front[j] == pairs[j]);
                }
            }
            assert forall|i: int| 0 <= i < pairs.len() implies map_of_pairs(pairs)[(#[trigger] pairs[i]).0]
                == pairs[i].1 by {
                if i < front.len() {
                    assert(front[i] == pairs[i]);
                    assert(pairs[i].0 != pairs[pairs.len() - 1].0);
                }
            }
        }
    }
}

/// **The order of the pairs is immaterial.**  Two lists with distinct keys
/// that hold the same pairs, in whatever order, stand for the same map: a
/// series that is written out pair by pair and read back in another order
/// is the same series.
pub proof fn law_pairs_order_is_immaterial<T>(p: Seq<(Seq<char>, T)>, q: Seq<(Seq<char>, T)>)
    requires
        distinct_keys(p),
        distinct_keys(q),
        forall|i: int| 0 <= i < p.len() ==> q.contains(#[trigger] p[i]),
        forall|j: int| 0 <= j < q.len() ==> p.contains(#[trigger] q[j]),
    ensures
        map_of_pairs(p) == map_of_pairs(q),
{
    lemma_map_of_pairs(p);
    lemma_map_of_pairs(q);
    let mp = map_of_pairs(p);
    let mq = map_of_pairs(q);
    assert forall|k: Seq<char>| mp.contains_key(k) <==> mq.contains_key(k) by {
        if mp.contains_key(k) {
            let i = choose|i: int| 0 <= i < p.len() && (#[trigger] p[i]).0 == k;
            assert(q.contains(p[i]));
            let j = choose|j: int| 0 <= j < q.len() && q[j] == p[i];
            assert(q[j].0 == k);
        }
        if mq.contains_key(k) {
            let j = choose|j: int| 0 <= j < q.len() && (#[trigger] q[j]).0 == k;
            assert(p.contains(q[j]));
            let i = choose|i: int| 0 <= i < p.len() && p[i] == q[j];
            assert(p[i].0 == k);
        }
    }
    assert forall|k: Seq<char>| mp.contains_key(k) implies mp[k] == mq[k] by {
        let i = choose|i: int| 0 <= i < p.len() && (#[trigger] p[i]).0 == k;
        assert(q.contains(p[i]));
        let j = choose|j: int| 0 <= j < q.len() && q[j] == p[i];
        assert(mp[p[i].0] == p[i].1);
        assert(mq[q[j].0] == q[j].1);
    }
    assert(mp =~= mq);
}

/// The pairs of parallel sequences of distinct keys and of values stand for
/// the map of those sequences.
pub proof fn lemma_zipped_pairs<T>(keys: Seq<Seq<char>>, values: Seq<T>, pairs: Seq<(Seq<char>, T)>)
    requires
        keys.no_duplicates(),
        keys.len() == values.len(),
        pairs.len() == keys.len(),
        forall|i: int| 0 <= i < pairs.len() ==> (#[trigger] pairs[i]) == (keys[i], values[i]),
    ensures
        distinct_keys(pairs),
        map_of_pairs(pairs) == map_of(keys, values),
{
    lemma_map_of_pairs(pairs);
    assert(distinct_keys(pairs)) by {
        assert forall|i: int, j: int|
            0 <= i < pairs.len() && 0 <= j < pairs.len() && i != j implies pairs[i].0 != pairs[j].0 by {
            assert(pairs[i] == (keys[i], values[i]));
            assert(pairs[j] == (keys[j], values[j]));
        }
    }
    let lhs = map_of_pairs(pairs);
    let rhs = map_of(keys, values);
    assert forall|k: Seq<char>| lhs.contains_key(k) <==> rhs.contains_key(k) by {
        if lhs.contains_key(k) {
            let i = choose|i: int| 0 <= i < pairs.len() && (#[trigger] pairs[i]).0 == k;
            assert(pairs[i] == (keys[i], values[i]));
            assert(keys[i] == k);
        }
        if keys.contains(k) {
            let i = choose|i: int| 0 <= i < keys.len() && keys[i] == k;
            assert(pairs[i] == (keys[i], values[i]));
            assert(pairs[i].0 == k);
        }
    }
    assert forall|k: Seq<char>| lhs.contains_key(k) implies lhs[k] == rhs[k] by {
        let i = choose|i: int| 0 <= i < pairs.len() && (#[trigger] pairs[i]).0 == k;
        assert(pairs[i] == (keys[i], values[i]));
        lemma_map_of_index(keys, values, i);
        assert(lhs[pairs[i].0] == pairs[i].1);
    }
    assert(lhs =~= rhs);
}

impl<V> KeyedSeries<V> {
    #[verifier::type_invariant]
    closed spec fn unique_keys(&self) -> bool {
        forall|i: int, j: int|
            0 <= i < self.entries.len() && 0 <= j < self.entries.len() && i != j
                ==> self.entries[i].key@ != self.entries[j].key@
    }
}

impl<V: View> View for KeyedSeries<V> {
    type V = Map<Seq<char>, V::V>;

    /// What each stored key maps to.
    closed spec fn view(&self) -> Map<Seq<char>, V::V> {
        map_of(self.keys(), self.values())
    }
}

impl<V: View> KeyedSeries<V> {
    /// The keys, in the order in which they were first inserted.
    pub closed spec fn keys(&self) -> Seq<Seq<char>> {
        self.entries@.map_values(|e: SeriesEntry<V>| e.key@)
    }

    /// The views of the stored values, aligned with [`Self::keys`].
    pub closed spec fn values(&self) -> Seq<V::V> {
        self.entries@.map_values(|e: SeriesEntry<V>| e.value@)
    }

    /// What every series that executable code can hold satisfies: the keys
    /// are distinct, and the map view pairs each key with its value.
    pub open spec fn well_formed(&self) -> bool {
        &&& self.keys().no_duplicates()
        &&& self.keys().len() == self.values().len()
        &&& self@ == map_of(self.keys(), self.values())
        &&& self@.dom().finite()
    }

    proof fn lemma_well_formed(&self)
        requires
            self.unique_keys(),
        ensures
            self.well_formed(),
    {
        let keys = self.keys();
        assert forall|i: int, j: int| 0 <= i < keys.len() && 0 <= j < keys.len() && i != j implies keys[i]
            != keys[j] by {
            assert(self.entries[i].key@ != self.entries[j].key@);
        }
        assert(self@.dom() =~= keys.to_set());
        vstd::seq_lib::seq_to_set_is_finite(keys);
    }

    /// A series without entries.
    pub fn new() -> (series: Self)
        ensures
            series@ == Map::<Seq<char>, V::V>::empty(),
            series.keys() == Seq::<Seq<char>>::empty(),
            series.values() == Seq::<V::V>::empty(),
            series.well_formed(),
    {
        let series = KeyedSeries { entries: Vec::new() };
        proof {
            assert(series.keys() =~= Seq::<Seq<char>>::empty());
            assert(series.values() =~= Seq::<V::V>::empty());
            assert(series@ =~= Map::<Seq<char>, V::V>::empty());
            use_type_invariant(&series);
            series.lemma_well_formed();
        }
        series
    }

    /// Number of stored keys.
    pub fn len(&self) -> (n: usize)
        ensures
            n == self.keys().len(),
            n == self.values().len(),
            n == self@.len(),
            self.well_formed(),
    {
        proof {
            use_type_invariant(&*self);
            self.lemma_well_formed();
            self.keys().unique_seq_to_set();
            assert(self@.dom() =~= self.keys().to_set());
        }
        self.entries.len()
    }

    /// The position of `key`, if the series holds it.
    pub fn position(&self, key: &String) -> (found: Option<usize>)
        ensures
            self.well_formed(),
            match found {
                Some(i) => i < self.keys().len() && self.keys()[i as int] == key@,
                None => !self.keys().contains(key@),
            },
            found is Some <==> self@.contains_key(key@),
    {
        proof {
            use_type_invariant(&*self);
            self.lemma_well_formed();
        }
        let n = self.entries.len();
        let mut i: usize = 0;
        while i < n
            invariant
                n == self.entries.len(),
                i <= n,
                self.well_formed(),
                forall|j: int| 0 <= j < i ==> self.keys()[j] != key@,
            decreases n - i,
        {
            if self.entries[i].key == *key {
                assert(self.keys()[i as int] == key@);
                assert(self.keys().contains(key@));
                return Some(i);
            }
            i += 1;
        }
        None
    }

    /// The key at position `index`.
    pub fn key_at(&self, index: usize) -> (key: &String)
        requires
            index < self.keys().len(),
        ensures
            key@ == self.keys()[index as int],
            self@.contains_key(key@),
            self.well_formed(),
    {
        proof {
            use_type_invariant(&*self);
            self.lemma_well_formed();
            lemma_map_of_index(self.keys(), self.values(), index as int);
        }
        &self.entries[index].key
    }

    /// The value at position `index`.
    pub fn value_at(&self, index: usize) -> (value: &V)
        requires
            index < self.keys().len(),
        ensures
            value@ == self.values()[index as int],
            value@ == self@[self.keys()[index as int]],
            self.well_formed(),
    {
        proof {
            use_type_invariant(&*self);
            self.lemma_well_formed();
            lemma_map_of_index(self.keys(), self.values(), index as int);
        }
        &self.entries[index].value
    }

    /// The value stored under `key`, if any.
    pub fn get(&self, key: &String) -> (value: Option<&V>)
        ensures
            match value {
                Some(v) => self@.contains_key(key@) && v@ == self@[key@],
                None => !self@.contains_key(key@),
            },
    {
        match self.position(key) {
            Some(i) => Some(self.value_at(i)),
            None => None,
        }
    }

    /// Replaces the value stored at position `index`; the key stays.
    pub fn set_value(&mut self, index: usize, value: V)
        requires
            index < old(self).keys().len(),
        ensures
            final(self).keys() == old(self).keys(),
            final(self).values() == old(self).values().update(index as int, value@),
            final(self)@ == old(self)@.insert(old(self).keys()[index as int], value@),
            final(self).well_formed(),
    {
        proof {
            use_type_invariant(&*self);
            self.lemma_well_formed();
            lemma_map_of_update(self.keys(), self.values(), index as int, value@);
        }
        let ghost new_view = value@;
        let mut entries: Vec<SeriesEntry<V>> = Vec::new();
        core::mem::swap(&mut self.entries, &mut entries);
        entries[index].value = value;
        assert(entries@.map_values(|e: SeriesEntry<V>| e.key@) =~= old(self).keys());
        assert(entries@.map_values(|e: SeriesEntry<V>| e.value@) =~= old(self).values().update(
            index as int,
            new_view,
        ));
        self.entries = entries;
        proof {
            use_type_invariant(&*self);
            self.lemma_well_formed();
        }
    }

    /// Puts `value` at position `index` and hands back what was stored
    /// there; the key stays.
    pub fn replace_value(&mut self, index: usize, value: V) -> (previous: V)
        requires
            index < old(self).keys().len(),
        ensures
            previous@ == old(self).values()[index as int],
            previous@ == old(self)@[old(self).keys()[index as int]],
            final(self).keys() == old(self).keys(),
            final(self).values() == old(self).values().update(index as int, value@),
            final(self)@ == old(self)@.insert(old(self).keys()[index as int], value@),
            final(self).well_formed(),
    {
        proof {
            use_type_invariant(&*self);
            self.lemma_well_formed();
            lemma_map_of_update(self.keys(), self.values(), index as int, value@);
            lemma_map_of_index(self.keys(), self.values(), index as int);
        }
        let ghost new_view = value@;
        let mut value = value;
        let mut entries: Vec<SeriesEntry<V>> = Vec::new();
        core::mem::swap(&mut self.entries, &mut entries);
        core::mem::swap(&mut entries[index].value, &mut value);
        assert(entries@.map_values(|e: SeriesEntry<V>| e.key@) =~= old(self).keys());
        assert(entries@.map_values(|e: SeriesEntry<V>| e.value@) =~= old(self).values().update(
            index as int,
            new_view,
        ));
        self.entries = entries;
        proof {
            use_type_invariant(&*self);
            self.lemma_well_formed();
        }
        value
    }

    /// Appends a key that the series does not hold yet.
    pub fn push_new(&mut self, key: String, value: V)
        requires
            !old(self)@.contains_key(key@),
        ensures
            final(self).keys() == old(self).keys().push(key@),
            final(self).values() == old(self).values().push(value@),
            final(self)@ == old(self)@.insert(key@, value@),
            final(self).well_formed(),
    {
        proof {
            use_type_invariant(&*self);
            self.lemma_well_formed();
            lemma_map_of_push(self.keys(), self.values(), key@, value@);
        }
        let ghost new_key = key@;
        let ghost new_view = value@;
        assert forall|i: int| 0 <= i < self.entries.len() implies self.entries[i].key@ != new_key by {
            assert(self.keys()[i] == self.entries[i].key@);
            assert(self.keys().contains(self.entries[i].key@));
        }
        let mut entries: Vec<SeriesEntry<V>> = Vec::new();
        core::mem::swap(&mut self.entries, &mut entries);
        entries.push(SeriesEntry { key, value });
        self.entries = entries;
        assert(self.keys() =~= old(self).keys().push(new_key));
        assert(self.values() =~= old(self).values().push(new_view));
        proof {
            use_type_invariant(&*self);
            self.lemma_well_formed();
        }
    }

    /// Stores `value` under `key`, replacing what was stored there.
    pub fn insert(&mut self, key: String, value: V)
        ensures
            final(self)@ == old(self)@.insert(key@, value@),
            final(self).well_formed(),
            old(self)@.contains_key(key@) ==> final(self).keys() == old(self).keys(),
            !old(self)@.contains_key(key@) ==> final(self).keys() == old(self).keys().push(key@),
    {
        match self.position(&key) {
            Some(i) => self.set_value(i, value),
            None => self.push_new(key, value),
        }
    }
}

impl<V: View + Copy> KeyedSeries<V> {
    /// The entries of the series as a list of pairs, for writing them out.
    pub fn to_pairs(&self) -> (pairs: Vec<(String, V)>)
        ensures
            pairs.len() == self@.len(),
            distinct_keys(pair_views(pairs@)),
            map_of_pairs(pair_views(pairs@)) == self@,
    {
        let count = self.len();
        let mut pairs: Vec<(String, V)> = Vec::new();
        let mut i: usize = 0;
        while i < count
            invariant
                i <= count,
                count == self.keys().len(),
                count == self@.len(),
                self.well_formed(),
                pairs.len() == i,
                forall|j: int|
                    0 <= j < i ==> (#[trigger] pair_views(pairs@)[j]) == (
                        self.keys()[j],
                        self.values()[j],
                    ),
            decreases count - i,
        {
            let key = self.key_at(i).clone();
            let value = *self.value_at(i);
            let ghost before = pair_views(pairs@);
            pairs.push((key, value));
            proof {
                assert forall|j: int| 0 <= j < i + 1 implies (#[trigger] pair_views(pairs@)[j]) == (
                    self.keys()[j],
                    self.values()[j],
                ) by {
                    if j < i {
                        assert(pair_views(pairs@)[j] == before[j]);
                    }
                }
            }
            i += 1;
        }
        proof {
            lemma_zipped_pairs(self.keys(), self.values(), pair_views(pairs@));
        }
        pairs
    }

    /// The series that a list of pairs stands for, read front to back; a
    /// later pair replaces an earlier one with the same key.
    pub fn from_pairs(pairs: &Vec<(String, V)>) -> (series: Self)
        ensures
            series@ == map_of_pairs(pair_views(pairs@)),
    {
        let mut series: KeyedSeries<V> = KeyedSeries::new();
        let ghost all = pair_views(pairs@);
        let mut i: usize = 0;
        proof {
            assert(all.take(0) =~= Seq::<(Seq<char>, V::V)>::empty());
        }
        while i < pairs.len()
            invariant
                i <= pairs.len(),
                all == pair_views(pairs@),
                all.len() == pairs.len(),
                series@ == map_of_pairs(all.take(i as int)),
            decreases pairs.len() - i,
        {
            proof {
                assert(all.take(i + 1).drop_last() =~= all.take(i as int));
                assert(all.take(i + 1).last() == (pairs@[i as int].0@, pairs@[i as int].1@));
            }
            series.insert(pairs[i].0.clone(), pairs[i].1);
            i += 1;
        }
        proof {
            assert(all.take(i as int) =~= all);
        }
        series
    }

    /// A copy of the series: the same keys in the same order, each with a
    /// copy of its value.
    pub fn duplicate(&self) -> (copy: Self)
        ensures
            copy@ == self@,
            copy.keys() == self.keys(),
            copy.values() == self.values(),
    {
        let count = self.len();
        let mut copy: KeyedSeries<V> = KeyedSeries::new();
        let mut i: usize = 0;
        while i < count
            invariant
                i <= count,
                count == self.keys().len(),
                self.well_formed(),
                copy.well_formed(),
                copy.keys() == self.keys().take(i as int),
                copy.values() == self.values().take(i as int),
            decreases count - i,
        {
            let key = self.key_at(i);
            let value = *self.value_at(i);
            proof {
                let keys = self.keys();
                if keys.take(i as int).contains(keys[i as int]) {
                    let j = choose|j: int|
                        0 <= j < keys.take(i as int).len() && keys.take(i as int)[j] == keys[i as int];
                    assert(keys[j] == keys[i as int]);
                }
                assert(keys.take(i + 1) =~= keys.take(i as int).push(keys[i as int]));
                assert(self.values().take(i + 1) =~= self.values().take(i as int).push(
                    self.values()[i as int],
                ));
            }
            copy.push_new(key.clone(), value);
            i += 1;
        }
        proof {
            assert(self.keys().take(i as int) =~= self.keys());
            assert(self.values().take(i as int) =~= self.values());
        }
        copy
    }
}

} // verus!
