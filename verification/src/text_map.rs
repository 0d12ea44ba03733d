//! A map from texts to texts.

use crate::text::str_eq;
use vstd::prelude::*;

verus! {

/// The map that results from entering the pairs one after the other.
pub open spec fn map_of(pairs: Seq<(String, String)>) -> Map<Seq<char>, Seq<char>>
    decreases pairs.len(),
{
    if pairs.len() == 0 {
        Map::empty()
    } else {
        map_of(pairs.drop_last()).insert(pairs.last().0@, pairs.last().1@)
    }
}

/// No two pairs have the same key.
pub open spec fn keys_distinct(pairs: Seq<(String, String)>) -> bool {
    forall|i: int, j: int|
        0 <= i < j < pairs.len() ==> (#[trigger] pairs[i]).0@ != (#[trigger] pairs[j]).0@
}

/// A map from texts to texts: a list of pairs in which no key occurs twice.
#[derive(Debug, Clone)]
pub struct TextMap {
    entries: Vec<(String, String)>,
}

impl View for TextMap {
    type V = Map<Seq<char>, Seq<char>>;

    closed spec fn view(&self) -> Map<Seq<char>, Seq<char>> {
        map_of(self.entries@)
    }
}

proof fn lemma_map_of(pairs: Seq<(String, String)>)
    requires
        keys_distinct(pairs),
    ensures
        forall|k: Seq<char>| #[trigger]
            map_of(pairs).dom().contains(k) <==> exists|i: int|
                0 <= i < pairs.len() && (#[trigger] pairs[i]).0@ == k,
        forall|i: int|
            0 <= i < pairs.len() ==> map_of(pairs)[(#[trigger] pairs[i]).0@] == pairs[i].1@,
    decreases pairs.len(),
{
    if pairs.len() > 0 {
        let front = pairs.drop_last();
        lemma_map_of(front);
        assert forall|k: Seq<char>| #[trigger]
            map_of(pairs).dom().contains(k) <==> exists|i: int|
                0 <= i < pairs.len() && (#[trigger] pairs[i]).0@ == k by {
            if k == pairs.last().0@ {
                assert(pairs[pairs.len() - 1].0@ == k);
            } else if exists|i: int| 0 <= i < pairs.len() && (#[trigger] pairs[i]).0@ == k {
                let i = choose|i: int| 0 <= i < pairs.len() && (#[trigger] pairs[i]).0@ == k;
                assert(front[i].0@ == k);
                assert(map_of(front).dom().contains(k));
            } else if map_of(front).dom().contains(k) {
                let i = choose|i: int| 0 <= i < front.len() && (#[trigger] front[i]).0@ == k;
                assert(pairs[i].0@ == k);
            }
        }
        assert forall|i: int| 0 <= i < pairs.len() implies map_of(pairs)[(#[trigger] pairs[i]).0@]
            == pairs[i].1@ by {
            if i < pairs.len() - 1 {
                assert(front[i] == pairs[i]);
                assert(pairs[i].0@ != pairs[pairs.len() - 1].0@);
            }
        }
    }
}

impl TextMap {
    /// No key occurs twice.
    pub closed spec fn wf(&self) -> bool {
        keys_distinct(self.entries@)
    }

    /// How many keys there are.
    pub closed spec fn spec_len(&self) -> nat {
        self.entries@.len()
    }

    /// The key at a place of the list.
    pub closed spec fn spec_key(&self, i: int) -> Seq<char> {
        self.entries@[i].0@
    }

    /// The empty map.
    pub fn new() -> (res: TextMap)
        ensures
            res.wf(),
            res@ == Map::<Seq<char>, Seq<char>>::empty(),
    {
        let res = TextMap { entries: Vec::new() };
        assert(res@ =~= Map::empty());
        res
    }

    fn place(&self, key: &str) -> (res: Option<usize>)
        requires
            self.wf(),
        ensures
            match res {
                Some(i) => i < self.entries@.len() && self.entries@[i as int].0@ == key@
                    && self@.dom().contains(key@) && self@[key@] == self.entries@[i as int].1@,
                None => !self@.dom().contains(key@),
            },
    {
        let mut i: usize = 0;
        proof {
            lemma_map_of(self.entries@);
        }
        while i < self.entries.len()
            invariant
                i <= self.entries@.len(),
                self.wf(),
                forall|j: int| 0 <= j < i ==> (#[trigger] self.entries@[j]).0@ != key@,
            decreases self.entries@.len() - i,
        {
            if str_eq(self.entries[i].0.as_str(), key) {
                proof {
                    lemma_map_of(self.entries@);
                }
                return Some(i);
            }
            i = i + 1;
        }
        None
    }

    /// Enters a value under a key, in place of an earlier one.
    pub fn insert(&mut self, key: String, value: String)
        requires
            old(self).wf(),
        ensures
            final(self).wf(),
            final(self)@ == old(self)@.insert(key@, value@),
    {
        let ghost before = self.entries@;
        let found = self.place(key.as_str());
        match found {
            Some(i) => {
                self.entries.set(i, (key, value));
                proof {
                    let after = self.entries@;
                    assert forall|a: int, b: int| 0 <= a < b < after.len() implies (
                    #[trigger] after[a]).0@ != (#[trigger] after[b]).0@ by {
                        assert(before[a].0@ != before[b].0@);
                        assert(after[a].0@ == before[a].0@);
                        assert(after[b].0@ == before[b].0@);
                    }
                    lemma_map_of(before);
                    lemma_map_of(after);
                    assert forall|k: Seq<char>| #[trigger]
                        map_of(after).dom().contains(k) <==> map_of(before).insert(
                            key@,
                            value@,
                        ).dom().contains(k) by {
                        if exists|j: int| 0 <= j < after.len() && (#[trigger] after[j]).0@ == k {
                            let j = choose|j: int|
                                0 <= j < after.len() && (#[trigger] after[j]).0@ == k;
                            assert(before[j].0@ == k);
                        }
                        if exists|j: int| 0 <= j < before.len() && (#[trigger] before[j]).0@ == k {
                            let j = choose|j: int|
                                0 <= j < before.len() && (#[trigger] before[j]).0@ == k;
                            assert(after[j].0@ == k);
                        }
                    }
                    assert forall|k: Seq<char>|
                        map_of(after).dom().contains(k) implies #[trigger] map_of(after)[k]
                        == map_of(before).insert(key@, value@)[k] by {
                        let j = choose|j: int|
                            0 <= j < after.len() && (#[trigger] after[j]).0@ == k;
                        assert(map_of(after)[after[j].0@] == after[j].1@);
                        if j != i {
                            assert(after[j] == before[j]);
                            assert(map_of(before)[before[j].0@] == before[j].1@);
                            assert(before[j].0@ != before[i as int].0@);
                        }
                    }
                    assert(map_of(after) =~= map_of(before).insert(key@, value@));
                }
            },
            None => {
                self.entries.push((key, value));
                proof {
                    let after = self.entries@;
                    lemma_map_of(before);
                    assert(after.drop_last() =~= before);
                    assert forall|a: int, b: int| 0 <= a < b < after.len() implies (
                    #[trigger] after[a]).0@ != (#[trigger] after[b]).0@ by {
                        assert(before[a].0@ == after[a].0@);
                        if b < before.len() {
                            assert(before[b].0@ == after[b].0@);
                        }
                    }
                }
            },
        }
    }

    /// The value under a key.
    pub fn get(&self, key: &str) -> (res: Option<&str>)
        requires
            self.wf(),
        ensures
            match res {
                Some(v) => self@.dom().contains(key@) && v@ == self@[key@],
                None => !self@.dom().contains(key@),
            },
    {
        match self.place(key) {
            Some(i) => Some(self.entries[i].1.as_str()),
            None => None,
        }
    }

    /// How many keys there are.
    pub fn len(&self) -> (res: usize)
        requires
            self.wf(),
        ensures
            res == self.spec_len(),
            forall|k: Seq<char>| #[trigger]
                self@.dom().contains(k) <==> exists|i: int|
                    0 <= i < res && #[trigger] self.spec_key(i) == k,
            forall|i: int, j: int|
                0 <= i < j < res ==> #[trigger] self.spec_key(i) != #[trigger] self.spec_key(j),
    {
        proof {
            lemma_map_of(self.entries@);
            assert forall|k: Seq<char>| #[trigger]
                self@.dom().contains(k) <==> exists|i: int|
                    0 <= i < self.spec_len() && #[trigger] self.spec_key(i) == k by {
                if self@.dom().contains(k) {
                    let i = choose|i: int|
                        0 <= i < self.entries@.len() && (#[trigger] self.entries@[i]).0@ == k;
                    assert(self.spec_key(i) == k);
                }
            }
        }
        self.entries.len()
    }

    /// The key at a place of the list, and its value.
    pub fn entry(&self, i: usize) -> (res: (&str, &str))
        requires
            self.wf(),
            i < self.spec_len(),
        ensures
            res.0@ == self.spec_key(i as int),
            self@.dom().contains(res.0@),
            res.1@ == self@[res.0@],
    {
        proof {
            lemma_map_of(self.entries@);
        }
        let pair = &self.entries[i];
        (pair.0.as_str(), pair.1.as_str())
    }
}

} // verus!
