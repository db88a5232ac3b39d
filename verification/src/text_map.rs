//! A map keyed by text.
use vstd::prelude::*;
use crate::text::same;

verus! {

struct Slot<V> {
    key: String,
    value: V,
}

/// A map from texts to values. Nothing is promised of the order in which it keeps its keys.
pub struct TextMap<V> {
    slots: Vec<Slot<V>>,
}

spec fn has<V>(slots: Seq<Slot<V>>, key: Seq<char>) -> bool {
    exists|i: int| 0 <= i < slots.len() && (#[trigger] slots[i]).key@ == key
}

spec fn place<V>(slots: Seq<Slot<V>>, key: Seq<char>) -> int {
    choose|i: int| 0 <= i < slots.len() && (#[trigger] slots[i]).key@ == key
}

spec fn contents<V>(slots: Seq<Slot<V>>) -> Map<Seq<char>, V> {
    Map::new(|k: Seq<char>| has(slots, k), |k: Seq<char>| slots[place(slots, k)].value)
}

spec fn distinct<V>(slots: Seq<Slot<V>>) -> bool {
    forall|i: int, j: int|
        0 <= i < j < slots.len() ==> (#[trigger] slots[i]).key@ != (#[trigger] slots[j]).key@
}

impl<V> View for TextMap<V> {
    type V = Map<Seq<char>, V>;

    closed spec fn view(&self) -> Map<Seq<char>, V> {
        contents(self.slots@)
    }
}

proof fn lemma_found<V>(slots: Seq<Slot<V>>, i: int)
    requires
        distinct(slots),
        0 <= i < slots.len(),
    ensures
        contents(slots).contains_key(slots[i].key@),
        contents(slots)[slots[i].key@] == slots[i].value,
        place(slots, slots[i].key@) == i,
{
    let key = slots[i].key@;
    assert(has(slots, key));
    let p = place(slots, key);
    assert(0 <= p < slots.len() && slots[p].key@ == key);
}

impl<V> TextMap<V> {
    #[verifier::type_invariant]
    spec fn well_formed(self) -> bool {
        distinct(self.slots@)
    }

    /// The keys, in the order in which they are kept.
    pub closed spec fn order(&self) -> Seq<Seq<char>> {
        Seq::new(self.slots@.len(), |i: int| self.slots@[i].key@)
    }

    pub fn new() -> (r: TextMap<V>)
        ensures
            r@ == Map::<Seq<char>, V>::empty(),
            r.order().len() == 0,
    {
        let slots: Vec<Slot<V>> = Vec::new();
        assert(contents(slots@) =~= Map::<Seq<char>, V>::empty());
        TextMap { slots }
    }

    fn find(&self, key: &str) -> (r: Option<usize>)
        ensures
            match r {
                Some(i) => i < self.slots@.len() && self.slots@[i as int].key@ == key@,
                None => !self@.contains_key(key@),
            },
    {
        let mut i: usize = 0;
        while i < self.slots.len()
            invariant
                i <= self.slots@.len(),
                forall|j: int| 0 <= j < i ==> (#[trigger] self.slots@[j]).key@ != key@,
            decreases self.slots@.len() - i,
        {
            if same(self.slots[i].key.as_str(), key) {
                return Some(i);
            }
            i += 1;
        }
        None
    }

    pub fn contains(&self, key: &str) -> (r: bool)
        ensures
            r == self@.contains_key(key@),
    {
        proof {
            use_type_invariant(self);
        }
        match self.find(key) {
            Some(i) => {
                proof {
                    lemma_found(self.slots@, i as int);
                }
                true
            },
            None => false,
        }
    }

    pub fn get(&self, key: &str) -> (r: Option<&V>)
        ensures
            match r {
                Some(v) => self@.contains_key(key@) && self@[key@] == *v,
                None => !self@.contains_key(key@),
            },
    {
        proof {
            use_type_invariant(self);
        }
        match self.find(key) {
            Some(i) => {
                proof {
                    lemma_found(self.slots@, i as int);
                }
                Some(&self.slots[i].value)
            },
            None => None,
        }
    }

    /// Stores `value` under `key`, in place of what was there.
    pub fn insert(&mut self, key: &str, value: V)
        ensures
            final(self)@ == old(self)@.insert(key@, value),
    {
        proof {
            use_type_invariant(&*self);
        }
        let found = self.find(key);
        let mut slots: Vec<Slot<V>> = Vec::new();
        std::mem::swap(&mut slots, &mut self.slots);
        let ghost before = slots@;
        let slot = Slot { key: key.to_owned(), value };
        match found {
            Some(i) => {
                slots.set(i, slot);
                proof {
                    lemma_found(before, i as int);
                    assert forall|k: Seq<char>| #[trigger] has(slots@, k) == has(before, k) by {
                        if has(before, k) {
                            let p = place(before, k);
                            assert(slots@[p].key@ == k);
                        }
                        if has(slots@, k) {
                            let p = place(slots@, k);
                            assert(before[p].key@ == k);
                        }
                    }
                    assert forall|k: Seq<char>| has(slots@, k) implies #[trigger] contents(
                        slots@,
                    )[k] == contents(before).insert(key@, value)[k] by {
                        let p = place(slots@, k);
                        lemma_found(slots@, p);
                        if k != key@ {
                            lemma_found(before, p);
                        } else {
                            lemma_found(slots@, i as int);
                        }
                    }
                    assert(contents(slots@) =~= contents(before).insert(key@, value));
                }
            },
            None => {
                slots.push(slot);
                proof {
                    assert forall|i: int| 0 <= i < before.len() implies (#[trigger] before[i]).key@
                        != key@ by {
                        lemma_found(before, i);
                    }
                    assert(slots@[before.len() as int].key@ == key@);
                    assert(distinct(slots@));
                    assert forall|k: Seq<char>| #[trigger]
                        has(slots@, k) == (has(before, k) || k == key@) by {
                        if has(before, k) {
                            let p = place(before, k);
                            assert(slots@[p].key@ == k);
                        }
                        if has(slots@, k) {
                            let p = place(slots@, k);
                            if p < before.len() {
                                assert(before[p].key@ == k);
                            }
                        }
                    }
                    assert forall|k: Seq<char>| has(slots@, k) implies #[trigger] contents(
                        slots@,
                    )[k] == contents(before).insert(key@, value)[k] by {
                        let p = place(slots@, k);
                        lemma_found(slots@, p);
                        if k != key@ {
                            assert(p < before.len());
                            lemma_found(before, p);
                        } else {
                            lemma_found(slots@, before.len() as int);
                        }
                    }
                    assert(contents(slots@) =~= contents(before).insert(key@, value));
                }
            },
        }
        self.slots = slots;
    }

    /// Takes out what is stored under `key`.
    pub fn remove(&mut self, key: &str) -> (r: Option<V>)
        ensures
            final(self)@ == old(self)@.remove(key@),
            match r {
                Some(v) => old(self)@.contains_key(key@) && old(self)@[key@] == v,
                None => !old(self)@.contains_key(key@),
            },
    {
        proof {
            use_type_invariant(&*self);
        }
        let found = self.find(key);
        match found {
            Some(i) => {
                let mut slots: Vec<Slot<V>> = Vec::new();
                std::mem::swap(&mut slots, &mut self.slots);
                let ghost before = slots@;
                let slot = slots.remove(i);
                proof {
                    lemma_found(before, i as int);
                    assert(slots@ =~= before.remove(i as int));
                    assert forall|j: int| 0 <= j < slots@.len() implies #[trigger] slots@[j]
                        == before[if j < i {
                        j
                    } else {
                        j + 1
                    }] by {}
                    assert forall|k: Seq<char>| #[trigger]
                        has(slots@, k) == (has(before, k) && k != key@) by {
                        if has(before, k) && k != key@ {
                            let p = place(before, k);
                            let q = if p < i {
                                p
                            } else {
                                p - 1
                            };
                            assert(slots@[q].key@ == k);
                        }
                        if has(slots@, k) {
                            let p = place(slots@, k);
                            let q = if p < i {
                                p
                            } else {
                                p + 1
                            };
                            assert(before[q].key@ == k);
                        }
                    }
                    assert forall|k: Seq<char>| has(slots@, k) implies #[trigger] contents(
                        slots@,
                    )[k] == contents(before)[k] by {
                        let p = place(slots@, k);
                        lemma_found(slots@, p);
                        let q = if p < i {
                            p
                        } else {
                            p + 1
                        };
                        lemma_found(before, q);
                    }
                    assert(contents(slots@) =~= contents(before).remove(key@));
                }
                self.slots = slots;
                Some(slot.value)
            },
            None => {
                assert(self@ =~= self@.remove(key@));
                None
            },
        }
    }

    /// How many keys there are. Their order names each of them once.
    pub fn len(&self) -> (r: usize)
        ensures
            r == self.order().len(),
            self.order().no_duplicates(),
            forall|k: Seq<char>| #[trigger] self@.contains_key(k) <==> self.order().contains(k),
    {
        proof {
            use_type_invariant(self);
            assert forall|k: Seq<char>| #[trigger]
                self@.contains_key(k) <==> self.order().contains(k) by {
                if self@.contains_key(k) {
                    let p = place(self.slots@, k);
                    assert(self.order()[p] == k);
                }
                if self.order().contains(k) {
                    let p = choose|p: int| 0 <= p < self.order().len() && self.order()[p] == k;
                    assert(self.slots@[p].key@ == k);
                }
            }
        }
        self.slots.len()
    }

    /// The key that is kept at place `i`.
    pub fn key(&self, i: usize) -> (r: &str)
        requires
            i < self.order().len(),
        ensures
            r@ == self.order()[i as int],
            self@.contains_key(r@),
    {
        proof {
            use_type_invariant(self);
            lemma_found(self.slots@, i as int);
        }
        self.slots[i].key.as_str()
    }

    /// What is stored under the key at place `i`.
    pub fn value(&self, i: usize) -> (r: &V)
        requires
            i < self.order().len(),
        ensures
            self@.contains_key(self.order()[i as int]),
            *r == self@[self.order()[i as int]],
    {
        proof {
            use_type_invariant(self);
            lemma_found(self.slots@, i as int);
        }
        &self.slots[i].value
    }
}

/// The values of a map.
pub open spec fn map_views<T: View>(map: Map<Seq<char>, T>) -> Map<Seq<char>, T::V> {
    Map::new(|k: Seq<char>| map.contains_key(k), |k: Seq<char>| map[k]@)
}

pub proof fn lemma_map_views_insert<T: View>(map: Map<Seq<char>, T>, key: Seq<char>, value: T)
    ensures
        map_views(map.insert(key, value)) == map_views(map).insert(key, value@),
{
    assert(map_views(map.insert(key, value)) =~= map_views(map).insert(key, value@));
}

/// What a map holds is looked at value by value: under the same keys, each as it is.
pub proof fn law_a_map_is_viewed_value_by_value<T: View>(map: Map<Seq<char>, T>, key: Seq<char>)
    ensures
        map_views(map).contains_key(key) <==> map.contains_key(key),
        map.contains_key(key) ==> map_views(map)[key] == map[key]@,
{
}

} // verus!
