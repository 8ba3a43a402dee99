//! The frequency table that every strategy produces.

use vstd::hash_map::StringHashMap;
use vstd::multiset::Multiset;
use vstd::prelude::*;
use vstd::seq_lib::seq_to_set_is_finite;
use vstd::set_lib::lemma_subset_equality;

verus! {

/// How often each word occurs. Its view is the multiset of the recorded
/// words: the count of a word is its multiplicity, and a word that was never
/// recorded has count 0 and no entry.
pub struct FrequencyMap {
    /// The distinct words, in the order in which they were first recorded.
    words: Vec<String>,
    /// `counts[i]` is the number of occurrences of `words[i]`.
    counts: Vec<u64>,
    /// The position of each word in `words`.
    index: StringHashMap<usize>,
}

impl View for FrequencyMap {
    type V = Multiset<Seq<char>>;

    closed spec fn view(&self) -> Multiset<Seq<char>> {
        Multiset::from_map(self.table())
    }
}

impl DeepView for FrequencyMap {
    type V = Multiset<Seq<char>>;

    open spec fn deep_view(&self) -> Multiset<Seq<char>> {
        self@
    }
}

/// Whether every count of `m` fits the counters of a `FrequencyMap`.
pub open spec fn representable(m: Multiset<Seq<char>>) -> bool {
    forall|w: Seq<char>| m.count(w) <= u64::MAX
}

impl FrequencyMap {
    #[verifier::type_invariant]
    spec fn wf(self) -> bool {
        &&& self.words.len() == self.counts.len()
        &&& forall|i: int|
            0 <= i < self.words.len() ==> self.index@.contains_key(#[trigger] self.words[i]@)
                && self.index@[self.words[i]@] == i
        &&& forall|w: Seq<char>| #[trigger]
            self.index@.contains_key(w) ==> self.index@[w] < self.words.len()
                && self.words[self.index@[w] as int]@ == w
        &&& forall|i: int| 0 <= i < self.counts.len() ==> #[trigger] self.counts[i] >= 1
    }

    /// The count stored for each word that has an entry.
    spec fn table(self) -> Map<Seq<char>, nat> {
        Map::new(
            |w: Seq<char>| self.index@.contains_key(w),
            |w: Seq<char>| self.counts[self.index@[w] as int] as nat,
        )
    }

    /// The words that have an entry, in the order of their entries.
    spec fn keys(self) -> Seq<Seq<char>> {
        Seq::new(self.words.len() as nat, |i: int| self.words[i]@)
    }

    /// The count that the entries give to `w`.
    spec fn stored(self, w: Seq<char>) -> nat {
        if self.index@.contains_key(w) {
            self.counts[self.index@[w] as int] as nat
        } else {
            0
        }
    }

    /// The view counts exactly what the entries store.
    proof fn lemma_view(self)
        requires
            self.wf(),
        ensures
            forall|w: Seq<char>| #[trigger] self@.count(w) == self.stored(w),
            forall|w: Seq<char>| #[trigger] self@.count(w) <= u64::MAX,
            self@.dom() == self.index@.dom(),
            self.keys().no_duplicates(),
            self.keys().to_set() == self@.dom(),
    {
        let keys = self.keys();
        assert(self.table().dom() =~= keys.to_set()) by {
            assert forall|w: Seq<char>| self.index@.contains_key(w) implies keys.contains(w) by {
                assert(keys[self.index@[w] as int] == w);
            }
        }
        seq_to_set_is_finite(keys);
        assert forall|w: Seq<char>| #[trigger] self@.count(w) == self.stored(w) by {
            if self.index@.contains_key(w) {
                assert(self.table().dom().contains(w));
            } else {
                assert(!self.table().dom().contains(w));
            }
        }
        assert(self@.dom() =~= self.index@.dom());
    }

    /// A table without entries.
    pub fn new() -> (m: Self)
        ensures
            m@ == Multiset::<Seq<char>>::empty(),
    {
        let m = FrequencyMap { words: Vec::new(), counts: Vec::new(), index: StringHashMap::new() };
        proof {
            m.lemma_view();
            assert(m@ =~= Multiset::<Seq<char>>::empty());
        }
        m
    }

    /// The number of distinct words.
    pub fn len(&self) -> (n: usize)
        ensures
            n == self@.dom().len(),
    {
        proof {
            use_type_invariant(self);
            self.lemma_view();
        }
        self.index.len()
    }

    /// Whether no word has been recorded.
    pub fn is_empty(&self) -> (b: bool)
        ensures
            b == (self@ == Multiset::<Seq<char>>::empty()),
    {
        proof {
            use_type_invariant(self);
            self.lemma_view();
            if self.words.len() == 0 {
                assert(self@ =~= Multiset::<Seq<char>>::empty());
            } else {
                assert(self@.count(self.words[0]@) >= 1);
            }
        }
        self.words.len() == 0
    }

    /// The count of `word`: 0 where it was never recorded.
    pub fn get(&self, word: &str) -> (n: u64)
        ensures
            n == self@.count(word@),
    {
        proof {
            use_type_invariant(self);
            self.lemma_view();
        }
        match self.index.get(word) {
            Some(i) => self.counts[*i],
            None => 0,
        }
    }

    /// Records `n` further occurrences of `word`.
    pub fn add(&mut self, word: &str, n: u64)
        requires
            old(self)@.count(word@) + n <= u64::MAX,
        ensures
            forall|w: Seq<char>| #[trigger]
                final(self)@.count(w) == old(self)@.count(w) + (if w == word@ {
                    n as nat
                } else {
                    0
                }),
    {
        proof {
            use_type_invariant(&*self);
            self.lemma_view();
        }
        if n == 0 {
            return ;
        }
        let ghost before = *self;
        let mut taken = FrequencyMap::new();
        std::mem::swap(self, &mut taken);
        let FrequencyMap { mut words, mut counts, mut index } = taken;
        match index.get(word) {
            Some(i) => {
                let i: usize = *i;
                let c: u64 = counts[i];
                counts.set(i, c + n);
            },
            None => {
                index.insert(word.to_owned(), words.len());
                words.push(word.to_owned());
                counts.push(n);
            },
        }
        *self = FrequencyMap { words, counts, index };
        proof {
            self.lemma_view();
        }
    }

    /// Records one further occurrence of `word`.
    pub fn record(&mut self, word: &str)
        requires
            old(self)@.count(word@) < u64::MAX,
        ensures
            final(self)@ == old(self)@.insert(word@),
    {
        let ghost before = self@;
        self.add(word, 1);
        proof {
            assert(self@ =~= before.insert(word@));
        }
    }

    /// Adds each count of `other` to the count of the same word.
    pub fn absorb(&mut self, other: &FrequencyMap)
        requires
            representable(old(self)@.add(other@)),
        ensures
            final(self)@ == old(self)@.add(other@),
    {
        let ghost start = self@;
        let ghost keys = other.keys();
        let n = other.words.len();
        for i in 0..n
            invariant
                n == other.words.len(),
                keys == other.keys(),
                representable(start.add(other@)),
                forall|w: Seq<char>| #[trigger]
                    self@.count(w) == start.count(w) + (if keys.take(i as int).contains(w) {
                        other@.count(w)
                    } else {
                        0
                    }),
        {
            proof {
                use_type_invariant(other);
                other.lemma_view();
                assert(keys.take(i + 1) == keys.take(i as int).push(keys[i as int]));
                assert(!keys.take(i as int).contains(keys[i as int]));
                assert(other.stored(keys[i as int]) == other.counts[i as int]);
                assert(start.add(other@).count(keys[i as int]) <= u64::MAX);
            }
            let ghost before = self@;
            self.add(other.words[i].as_str(), other.counts[i]);
            proof {
                let seen = keys.take(i as int);
                let seen_next = keys.take(i + 1);
                assert forall|w: Seq<char>| #[trigger]
                    self@.count(w) == start.count(w) + (if seen_next.contains(w) {
                        other@.count(w)
                    } else {
                        0
                    }) by {
                    assert(self@.count(w) == before.count(w) + (if w == keys[i as int] {
                        other.counts[i as int] as nat
                    } else {
                        0
                    }));
                    if w == keys[i as int] {
                        assert(seen_next[i as int] == w);
                    } else if seen_next.contains(w) {
                        let j = choose|j: int| 0 <= j < seen_next.len() && seen_next[j] == w;
                        assert(seen[j] == w);
                    } else if seen.contains(w) {
                        let j = choose|j: int| 0 <= j < seen.len() && seen[j] == w;
                        assert(seen_next[j] == w);
                    }
                }
            }
        }
        proof {
            use_type_invariant(other);
            other.lemma_view();
            assert(keys.take(n as int) == keys);
            assert forall|w: Seq<char>| self@.count(w) == start.add(other@).count(w) by {
                if !keys.contains(w) {
                    assert(!keys.to_set().contains(w));
                }
            }
            assert(self@ =~= start.add(other@));
        }
    }

    /// Each distinct word once, with its count. The order of the list is not
    /// part of the contract.
    pub fn entries(&self) -> (list: Vec<(String, u64)>)
        ensures
            list.len() == self@.dom().len(),
            forall|i: int|
                0 <= i < list.len() ==> (#[trigger] list[i]).1 >= 1 && list[i].1 == self@.count(
                    list[i].0@,
                ),
            forall|i: int, j: int|
                0 <= i < j < list.len() ==> (#[trigger] list[i]).0@ != (#[trigger] list[j]).0@,
            forall|w: Seq<char>|
                self@.count(w) > 0 ==> exists|i: int|
                    0 <= i < list.len() && (#[trigger] list[i]).0@ == w,
    {
        proof {
            use_type_invariant(self);
            self.lemma_view();
            self.keys().unique_seq_to_set();
        }
        let mut list: Vec<(String, u64)> = Vec::new();
        let n = self.words.len();
        for i in 0..n
            invariant
                n == self.words.len(),
                n == self.counts.len(),
                list.len() == i,
                forall|k: int|
                    0 <= k < i ==> (#[trigger] list[k]).0@ == self.words[k]@ && list[k].1
                        == self.counts[k],
        {
            list.push((self.words[i].clone(), self.counts[i]));
        }
        proof {
            let keys = self.keys();
            assert forall|k: int| 0 <= k < list.len() implies (#[trigger] list[k]).1 >= 1
                && list[k].1 == self@.count(list[k].0@) by {
                assert(self.stored(keys[k]) == self.counts[k]);
            }
            assert forall|i: int, j: int| 0 <= i < j < list.len() implies (#[trigger] list[i]).0@
                != (#[trigger] list[j]).0@ by {
                assert(keys[i] != keys[j]);
            }
            assert forall|w: Seq<char>| self@.count(w) > 0 implies exists|i: int|
                0 <= i < list.len() && (#[trigger] list[i]).0@ == w by {
                let i = self.index@[w] as int;
                assert(list[i].0@ == w);
            }
        }
        list
    }

    /// Whether both tables give every word the same count.
    pub fn same_counts(&self, other: &FrequencyMap) -> (b: bool)
        ensures
            b == (self@ == other@),
    {
        proof {
            use_type_invariant(self);
            use_type_invariant(other);
            self.lemma_view();
            other.lemma_view();
        }
        if self.index.len() != other.index.len() {
            return false;
        }
        let ghost keys = self.keys();
        let n = self.words.len();
        for i in 0..n
            invariant
                n == self.words.len(),
                keys == self.keys(),
                forall|k: int| 0 <= k < i ==> self@.count(keys[k]) == other@.count(#[trigger] keys[k]),
        {
            proof {
                use_type_invariant(self);
                self.lemma_view();
                assert(self.stored(keys[i as int]) == self.counts[i as int]);
            }
            if other.get(self.words[i].as_str()) != self.counts[i] {
                return false;
            }
        }
        proof {
            assert forall|w: Seq<char>| self@.dom().contains(w) implies other@.dom().contains(w) by {
                assert(keys.to_set().contains(w));
                let k = choose|k: int| 0 <= k < keys.len() && keys[k] == w;
                assert(self@.count(keys[k]) == other@.count(keys[k]));
            }
            lemma_subset_equality(self@.dom(), other@.dom());
            assert forall|w: Seq<char>| self@.count(w) == other@.count(w) by {
                if self@.dom().contains(w) {
                    let k = choose|k: int| 0 <= k < keys.len() && keys[k] == w;
                    assert(self@.count(keys[k]) == other@.count(keys[k]));
                } else {
                    assert(!other@.dom().contains(w));
                }
            }
            assert(self@ =~= other@);
        }
        true
    }
}

} // verus!
