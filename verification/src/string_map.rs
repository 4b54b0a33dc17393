//! A map from strings to strings that remembers the order of its keys.

use vstd::prelude::*;

use crate::text::str_eq;

verus! {

/// A key and its value, as sequences of characters.
pub type Pair = (Seq<char>, Seq<char>);

/// The pairs that a list of strings stands for.
pub open spec fn pairs_of(list: Seq<(String, String)>) -> Seq<Pair> {
    list.map_values(|e: (String, String)| (e.0@, e.1@))
}

/// The map that results from inserting the pairs one after the other: of two
/// pairs with the same key, the later one wins.
pub open spec fn collected(pairs: Seq<Pair>) -> Map<Seq<char>, Seq<char>>
    decreases pairs.len(),
{
    if pairs.len() == 0 {
        Map::empty()
    } else {
        collected(pairs.drop_last()).insert(pairs.last().0, pairs.last().1)
    }
}

/// No two pairs share a key.
pub open spec fn distinct_keys(pairs: Seq<Pair>) -> bool {
    forall|i: int, j: int|
        0 <= i < j < pairs.len() ==> (#[trigger] pairs[i]).0 != (#[trigger] pairs[j]).0
}

/// The pairs with one more, which replaces any pair with the same key.
pub open spec fn with_pair(pairs: Seq<Pair>, pair: Pair) -> Seq<Pair> {
    if exists|i: int| 0 <= i < pairs.len() && (#[trigger] pairs[i]).0 == pair.0 {
        let i = choose|i: int| 0 <= i < pairs.len() && (#[trigger] pairs[i]).0 == pair.0;
        pairs.update(i, pair)
    } else {
        pairs.push(pair)
    }
}

/// A key is in the collected map exactly if some pair has it.
pub proof fn lemma_collected_dom(pairs: Seq<Pair>, key: Seq<char>)
    ensures
        collected(pairs).contains_key(key) <==> exists|i: int|
            0 <= i < pairs.len() && (#[trigger] pairs[i]).0 == key,
    decreases pairs.len(),
{
    if pairs.len() > 0 {
        let init = pairs.drop_last();
        lemma_collected_dom(init, key);
        if collected(init).contains_key(key) {
            let i = choose|i: int| 0 <= i < init.len() && (#[trigger] init[i]).0 == key;
            assert(pairs[i].0 == key);
        }
        if pairs.last().0 == key {
            assert(pairs[pairs.len() - 1].0 == key);
        }
        if exists|i: int| 0 <= i < pairs.len() && (#[trigger] pairs[i]).0 == key {
            let i = choose|i: int| 0 <= i < pairs.len() && (#[trigger] pairs[i]).0 == key;
            if i < init.len() {
                assert(init[i].0 == key);
            }
        }
    }
}

/// Where no two pairs share a key, the collected map holds each pair.
pub proof fn lemma_collected_value(pairs: Seq<Pair>, i: int)
    requires
        distinct_keys(pairs),
        0 <= i < pairs.len(),
    ensures
        collected(pairs).contains_key(pairs[i].0),
        collected(pairs)[pairs[i].0] == pairs[i].1,
    decreases pairs.len(),
{
    let init = pairs.drop_last();
    if i < pairs.len() - 1 {
        assert(distinct_keys(init)) by {
            assert forall|a: int, b: int| 0 <= a < b < init.len() implies (#[trigger] init[a]).0
                != (#[trigger] init[b]).0 by {
                assert(pairs[a].0 != pairs[b].0);
            }
        }
        lemma_collected_value(init, i);
        assert(pairs[i].0 != pairs[pairs.len() - 1].0);
        assert(init[i] == pairs[i]);
    }
}

/// Overwriting the value of a pair is an insertion under its key.
proof fn lemma_collected_update(pairs: Seq<Pair>, i: int, value: Seq<char>)
    requires
        distinct_keys(pairs),
        0 <= i < pairs.len(),
    ensures
        distinct_keys(pairs.update(i, (pairs[i].0, value))),
        collected(pairs.update(i, (pairs[i].0, value))) == collected(pairs).insert(
            pairs[i].0,
            value,
        ),
{
    let updated = pairs.update(i, (pairs[i].0, value));
    assert forall|a: int, b: int| 0 <= a < b < updated.len() implies (#[trigger] updated[a]).0
        != (#[trigger] updated[b]).0 by {
        assert(pairs[a].0 != pairs[b].0);
    }
    let left = collected(updated);
    let right = collected(pairs).insert(pairs[i].0, value);
    assert forall|key: Seq<char>| #[trigger] left.contains_key(key) == right.contains_key(key) by {
        lemma_collected_dom(pairs, key);
        lemma_collected_dom(updated, key);
        if exists|j: int| 0 <= j < pairs.len() && (#[trigger] pairs[j]).0 == key {
            let j = choose|j: int| 0 <= j < pairs.len() && (#[trigger] pairs[j]).0 == key;
            assert(updated[j].0 == key);
        }
        if exists|j: int| 0 <= j < updated.len() && (#[trigger] updated[j]).0 == key {
            let j = choose|j: int| 0 <= j < updated.len() && (#[trigger] updated[j]).0 == key;
            assert(pairs[j].0 == key);
        }
    }
    assert forall|key: Seq<char>| #[trigger] left.contains_key(key) implies left[key]
        == right[key] by {
        lemma_collected_dom(updated, key);
        let j = choose|j: int| 0 <= j < updated.len() && (#[trigger] updated[j]).0 == key;
        lemma_collected_value(updated, j);
        lemma_collected_value(pairs, j);
        if j != i {
            assert(pairs[j].0 != pairs[i].0);
        }
    }
    assert(left =~= right);
}

/// A map from strings to strings. Its keys keep the order in which they were
/// first inserted.
#[derive(Debug)]
pub struct StringMap {
    entries: Vec<(String, String)>,
}

impl View for StringMap {
    type V = Map<Seq<char>, Seq<char>>;

    open spec fn view(&self) -> Map<Seq<char>, Seq<char>> {
        collected(self.pairs())
    }
}

impl StringMap {
    /// The entries in the order of their keys' first insertion.
    pub closed spec fn pairs(&self) -> Seq<Pair> {
        pairs_of(self.entries@)
    }

    #[verifier::type_invariant]
    closed spec fn no_repeated_key(&self) -> bool {
        distinct_keys(self.pairs())
    }

    /// The empty map.
    pub fn new() -> (r: Self)
        ensures
            r.pairs() == Seq::<Pair>::empty(),
            r@ == Map::<Seq<char>, Seq<char>>::empty(),
    {
        let r = StringMap { entries: Vec::new() };
        assert(r.pairs() =~= Seq::<Pair>::empty());
        r
    }

    /// The position of the entry with the given key.
    fn position(entries: &Vec<(String, String)>, key: &str) -> (r: Option<usize>)
        ensures
            match r {
                Some(i) => i < entries.len() && entries@[i as int].0@ == key@,
                None => forall|i: int| 0 <= i < entries.len() ==> (#[trigger] entries@[i]).0@
                    != key@,
            },
    {
        let mut i: usize = 0;
        while i < entries.len()
            invariant
                i <= entries.len(),
                forall|j: int| 0 <= j < i ==> (#[trigger] entries@[j]).0@ != key@,
            decreases entries.len() - i,
        {
            if str_eq(entries[i].0.as_str(), key) {
                return Some(i);
            }
            i = i + 1;
        }
        None
    }

    /// The value stored under `key`.
    pub fn get(&self, key: &str) -> (r: Option<&String>)
        ensures
            match r {
                Some(value) => self@.contains_key(key@) && self@[key@] == value@,
                None => !self@.contains_key(key@),
            },
    {
        proof {
            use_type_invariant(self);
            lemma_collected_dom(self.pairs(), key@);
        }
        match Self::position(&self.entries, key) {
            Some(i) => {
                proof {
                    lemma_collected_value(self.pairs(), i as int);
                }
                Some(&self.entries[i].1)
            },
            None => {
                assert(forall|i: int|
                    0 <= i < self.pairs().len() ==> (#[trigger] self.pairs()[i]).0
                        == self.entries@[i].0@);
                None
            },
        }
    }

    /// Whether some value is stored under `key`.
    pub fn contains_key(&self, key: &str) -> (r: bool)
        ensures
            r == self@.contains_key(key@),
    {
        self.get(key).is_some()
    }

    /// Stores `value` under `key`, in place of any value stored there before.
    pub fn insert(&mut self, key: String, value: String)
        ensures
            final(self)@ == old(self)@.insert(key@, value@),
            final(self).pairs() == with_pair(old(self).pairs(), (key@, value@)),
    {
        proof {
            use_type_invariant(&*self);
        }
        let ghost before = self.pairs();
        let mut entries: Vec<(String, String)> = Vec::new();
        core::mem::swap(&mut entries, &mut self.entries);
        let ghost listed = entries@;
        match Self::position(&entries, key.as_str()) {
            Some(i) => {
                proof {
                    assert(before[i as int].0 == key@);
                    lemma_collected_update(before, i as int, value@);
                    assert(pairs_of(listed.update(i as int, (key, value))) =~= before.update(
                        i as int,
                        (before[i as int].0, value@),
                    ));
                }
                entries.set(i, (key, value));
            },
            None => {
                proof {
                    let after = before.push((key@, value@));
                    assert(forall|j: int|
                        0 <= j < before.len() ==> (#[trigger] before[j]).0 == listed[j].0@);
                    assert(pairs_of(listed.push((key, value))) =~= after);
                    assert(after.drop_last() =~= before);
                    assert forall|a: int, b: int| 0 <= a < b < after.len() implies (
                    #[trigger] after[a]).0 != (#[trigger] after[b]).0 by {
                        assert(before[a].0 == listed[a].0@);
                        if b < before.len() {
                            assert(before[a].0 != before[b].0);
                        }
                    }
                }
                entries.push((key, value));
            },
        }
        self.entries = entries;
    }

    /// The entries, one for each key.
    pub fn entries(&self) -> (r: &Vec<(String, String)>)
        ensures
            pairs_of(r@) == self.pairs(),
            distinct_keys(self.pairs()),
    {
        proof {
            use_type_invariant(self);
        }
        &self.entries
    }

    /// The map that results from inserting the listed pairs one after the other.
    pub fn from_pairs(list: &Vec<(String, String)>) -> (r: Self)
        ensures
            r@ == collected(pairs_of(list@)),
    {
        let mut r = StringMap::new();
        let mut i: usize = 0;
        while i < list.len()
            invariant
                i <= list.len(),
                r@ == collected(pairs_of(list@).take(i as int)),
            decreases list.len() - i,
        {
            proof {
                let next = pairs_of(list@).take(i + 1);
                assert(next.drop_last() =~= pairs_of(list@).take(i as int));
            }
            r.insert(list[i].0.clone(), list[i].1.clone());
            i = i + 1;
        }
        assert(pairs_of(list@).take(list@.len() as int) =~= pairs_of(list@));
        r
    }
}

impl Clone for StringMap {
    fn clone(&self) -> (r: Self)
        ensures
            r@ == self@,
            r.pairs() == self.pairs(),
    {
        proof {
            use_type_invariant(self);
        }
        let mut entries: Vec<(String, String)> = Vec::new();
        let mut i: usize = 0;
        while i < self.entries.len()
            invariant
                i <= self.entries.len(),
                entries@.len() == i,
                forall|j: int|
                    0 <= j < i ==> (#[trigger] entries@[j]).0@ == self.entries@[j].0@
                        && entries@[j].1@ == self.entries@[j].1@,
            decreases self.entries.len() - i,
        {
            entries.push((self.entries[i].0.clone(), self.entries[i].1.clone()));
            i = i + 1;
        }
        assert(pairs_of(entries@) =~= self.pairs());
        StringMap { entries }
    }
}

/// A list of strings stands for as many pairs, each with the texts of its strings.
pub proof fn lemma_pairs_of(list: Seq<(String, String)>, i: int)
    requires
        0 <= i < list.len(),
    ensures
        pairs_of(list).len() == list.len(),
        pairs_of(list)[i].0 == list[i].0@,
        pairs_of(list)[i].1 == list[i].1@,
{
}

/// No pairs give the empty map, and one more pair is one more insertion.
pub proof fn lemma_collected_push(pairs: Seq<Pair>, pair: Pair)
    ensures
        collected(Seq::<Pair>::empty()) == Map::<Seq<char>, Seq<char>>::empty(),
        collected(pairs.push(pair)) == collected(pairs).insert(pair.0, pair.1),
{
    assert(pairs.push(pair).drop_last() =~= pairs);
}

/// Of the pairs with the same key, the last one decides.
pub proof fn lemma_last_pair_decides(pairs: Seq<Pair>, i: int)
    requires
        0 <= i < pairs.len(),
        forall|j: int| i < j < pairs.len() ==> (#[trigger] pairs[j]).0 != pairs[i].0,
    ensures
        collected(pairs).contains_key(pairs[i].0),
        collected(pairs)[pairs[i].0] == pairs[i].1,
    decreases pairs.len(),
{
    if i < pairs.len() - 1 {
        let init = pairs.drop_last();
        assert forall|j: int| i < j < init.len() implies (#[trigger] init[j]).0 != init[i].0 by {
            assert(pairs[j].0 != pairs[i].0);
        }
        lemma_last_pair_decides(init, i);
        assert(pairs[pairs.len() - 1].0 != pairs[i].0);
    }
}

/// Where no two pairs share a key, equal keys stand at equal positions.
pub proof fn lemma_distinct_keys(pairs: Seq<Pair>, i: int, j: int)
    requires
        distinct_keys(pairs),
        0 <= i < pairs.len(),
        0 <= j < pairs.len(),
        pairs[i].0 == pairs[j].0,
    ensures
        i == j,
{
    if i < j {
        assert(pairs[i].0 != pairs[j].0);
    } else if j < i {
        assert(pairs[j].0 != pairs[i].0);
    }
}

/// A pair with a new key comes last, and one with a known key takes the place of the
/// pair that had it.
pub proof fn lemma_with_pair(pairs: Seq<Pair>, pair: Pair)
    requires
        distinct_keys(pairs),
    ensures
        (forall|i: int| 0 <= i < pairs.len() ==> (#[trigger] pairs[i]).0 != pair.0) ==> with_pair(
            pairs,
            pair,
        ) == pairs.push(pair),
        forall|i: int|
            0 <= i < pairs.len() && (#[trigger] pairs[i]).0 == pair.0 ==> with_pair(pairs, pair)
                == pairs.update(i, pair),
{
    assert forall|i: int| 0 <= i < pairs.len() && (#[trigger] pairs[i]).0 == pair.0 implies with_pair(
        pairs,
        pair,
    ) == pairs.update(i, pair) by {
        let at = choose|at: int| 0 <= at < pairs.len() && (#[trigger] pairs[at]).0 == pair.0;
        lemma_distinct_keys(pairs, i, at);
    }
}

/// A map holds the value of each of its pairs under the key of the pair, and nothing
/// else.
pub proof fn lemma_map_holds_its_pairs(map: StringMap, key: Seq<char>, value: Seq<char>)
    requires
        distinct_keys(map.pairs()),
    ensures
        map@.contains_pair(key, value) <==> map.pairs().contains((key, value)),
{
    let pairs = map.pairs();
    lemma_collected_dom(pairs, key);
    if map@.contains_key(key) {
        let i = choose|i: int| 0 <= i < pairs.len() && (#[trigger] pairs[i]).0 == key;
        lemma_collected_value(pairs, i);
        assert(pairs.contains(pairs[i]));
    }
    if pairs.contains((key, value)) {
        let i = choose|i: int| 0 <= i < pairs.len() && pairs[i] == (key, value);
        lemma_collected_value(pairs, i);
    }
}

} // verus!
