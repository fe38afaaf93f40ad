//! A finite map keyed by strings, kept as a list of distinct keys.
//!
//! Its abstract value is a `Map<Seq<char>, V>`; the order of the entries is
//! an implementation detail that only `keys_seq` exposes, as an enumeration
//! of the domain without repetition.
use vstd::prelude::*;

verus! {

pub assume_specification[ <str as PartialEq>::eq ](a: &str, b: &str) -> (r: bool)
    ensures
        r == (a@ == b@),
;

/// Values that can be copied with their view preserved.
pub trait DeepCopy: View + Sized {
    fn deep_copy(&self) -> (r: Self)
        ensures
            r@ == self@,
    ;
}

impl DeepCopy for String {
    fn deep_copy(&self) -> (r: String) {
        self.clone()
    }
}

pub struct StrMap<V> {
    entries: Vec<(String, V)>,
}

impl<V: View> StrMap<V> {
    /// The key stored at position `i`.
    pub closed spec fn key_at(&self, i: int) -> Seq<char> {
        self.entries@[i].0@
    }

    /// The keys in storage order.
    pub closed spec fn keys_seq(&self) -> Seq<Seq<char>> {
        Seq::new(self.entries@.len(), |i: int| self.entries@[i].0@)
    }

    /// The values in storage order.
    pub closed spec fn vals_seq(&self) -> Seq<V> {
        Seq::new(self.entries@.len(), |i: int| self.entries@[i].1)
    }

    /// Well-formedness: no key is stored twice.
    pub closed spec fn wf(&self) -> bool {
        forall|i: int, j: int|
            0 <= i < self.entries@.len() && 0 <= j < self.entries@.len() && i != j
                ==> #[trigger] self.key_at(i) != #[trigger] self.key_at(j)
    }

    spec fn index_of(&self, k: Seq<char>) -> int {
        choose|i: int| 0 <= i < self.entries@.len() && self.key_at(i) == k
    }

    pub closed spec fn map_view(&self) -> Map<Seq<char>, V::V> {
        Map::new(
            |k: Seq<char>| exists|i: int| 0 <= i < self.entries@.len() && self.key_at(i) == k,
            |k: Seq<char>| self.entries@[self.index_of(k)].1@,
        )
    }

    proof fn lemma_at(&self, i: int)
        requires
            self.wf(),
            0 <= i < self.entries@.len(),
        ensures
            self.map_view().contains_key(self.key_at(i)),
            self.map_view()[self.key_at(i)] == self.entries@[i].1@,
            self.index_of(self.key_at(i)) == i,
    {
        let k = self.key_at(i);
        assert(exists|j: int| 0 <= j < self.entries@.len() && self.key_at(j) == k);
        let j = self.index_of(k);
        assert(self.key_at(j) == k);
    }

    /// The storage order enumerates the domain of the map, each key once,
    /// and the values line up with the keys.
    pub proof fn lemma_enumeration(&self)
        requires
            self.wf(),
        ensures
            self.keys_seq().len() == self.vals_seq().len(),
            self.keys_seq().no_duplicates(),
            forall|i: int|
                0 <= i < self.keys_seq().len() ==> self.map_view().contains_key(
                    #[trigger] self.keys_seq()[i],
                ) && self.map_view()[self.keys_seq()[i]] == self.vals_seq()[i]@,
            forall|k: Seq<char>| #[trigger]
                self.map_view().contains_key(k) ==> self.keys_seq().contains(k),
            self.map_view().dom().finite(),
            self.map_view().dom().len() == self.keys_seq().len(),
    {
        assert forall|i: int| 0 <= i < self.keys_seq().len() implies self.map_view().contains_key(
            #[trigger] self.keys_seq()[i],
        ) && self.map_view()[self.keys_seq()[i]] == self.vals_seq()[i]@ by {
            self.lemma_at(i);
        }
        assert forall|k: Seq<char>| #[trigger] self.map_view().contains_key(k) implies self.keys_seq().contains(k) by {
            let i = choose|i: int| 0 <= i < self.entries@.len() && self.key_at(i) == k;
            assert(self.keys_seq()[i] == k);
        }
        assert(self.keys_seq().no_duplicates()) by {
            assert forall|i: int, j: int|
                0 <= i < self.keys_seq().len() && 0 <= j < self.keys_seq().len() && i != j
                implies self.keys_seq()[i] != self.keys_seq()[j] by {
                assert(self.key_at(i) != self.key_at(j));
            }
        }
        assert(self.map_view().dom() =~= self.keys_seq().to_set());
        self.keys_seq().unique_seq_to_set();
    }

    pub fn new() -> (m: Self)
        ensures
            m.wf(),
            m.map_view() == Map::<Seq<char>, V::V>::empty(),
            m.keys_seq() == Seq::<Seq<char>>::empty(),
            m.vals_seq() == Seq::<V>::empty(),
    {
        let m = StrMap { entries: Vec::new() };
        assert(m.map_view() =~= Map::<Seq<char>, V::V>::empty());
        assert(m.keys_seq() =~= Seq::<Seq<char>>::empty());
        assert(m.vals_seq() =~= Seq::<V>::empty());
        m
    }

    pub fn len(&self) -> (n: usize)
        requires
            self.wf(),
        ensures
            n == self.map_view().dom().len(),
    {
        proof {
            self.lemma_enumeration();
        }
        self.entries.len()
    }

    fn find(&self, k: &str) -> (r: Option<usize>)
        requires
            self.wf(),
        ensures
            match r {
                Some(i) => i < self.entries@.len() && self.key_at(i as int) == k@,
                None => !self.map_view().contains_key(k@),
            },
    {
        let mut i: usize = 0;
        while i < self.entries.len()
            invariant
                i <= self.entries@.len(),
                forall|j: int| 0 <= j < i ==> self.key_at(j) != k@,
            decreases self.entries@.len() - i,
        {
            if self.entries[i].0.as_str().eq(k) {
                return Some(i);
            }
            i = i + 1;
        }
        None
    }

    /// The storage position of `k`, if it is a key.
    pub fn find_pos(&self, k: &str) -> (r: Option<usize>)
        requires
            self.wf(),
        ensures
            match r {
                Some(i) => self.map_view().contains_key(k@) && i == self.pos(k@) && i
                    < self.keys_seq().len() && self.keys_seq()[i as int] == k@,
                None => !self.map_view().contains_key(k@),
            },
    {
        match self.find(k) {
            Some(i) => {
                proof {
                    self.lemma_at(i as int);
                }
                Some(i)
            },
            None => None,
        }
    }

    pub fn contains_key(&self, k: &str) -> (b: bool)
        requires
            self.wf(),
        ensures
            b == self.map_view().contains_key(k@),
    {
        match self.find(k) {
            Some(i) => {
                proof {
                    self.lemma_at(i as int);
                }
                true
            },
            None => false,
        }
    }

    pub fn get(&self, k: &str) -> (r: Option<&V>)
        requires
            self.wf(),
        ensures
            match r {
                Some(v) => self.map_view().contains_key(k@) && v@ == self.map_view()[k@] && *v
                    == self.vals_seq()[self.pos(k@)],
                None => !self.map_view().contains_key(k@),
            },
    {
        match self.find(k) {
            Some(i) => {
                proof {
                    self.lemma_at(i as int);
                }
                Some(&self.entries[i].1)
            },
            None => None,
        }
    }

    /// The position of key `k` in storage order.
    pub closed spec fn pos(&self, k: Seq<char>) -> int {
        self.index_of(k)
    }

    /// A key of the map sits at its position in storage order, with its
    /// value alongside.
    pub proof fn lemma_pos(&self, k: Seq<char>)
        requires
            self.wf(),
            self.map_view().contains_key(k),
        ensures
            0 <= self.pos(k) < self.keys_seq().len(),
            self.keys_seq().len() == self.vals_seq().len(),
            self.keys_seq()[self.pos(k)] == k,
            self.vals_seq()[self.pos(k)]@ == self.map_view()[k],
    {
        let i = choose|i: int| 0 <= i < self.entries@.len() && self.key_at(i) == k;
        self.lemma_at(i);
    }

    /// A map whose keys are unchanged and whose values changed only at the
    /// position of `k` is the old map with `k` bound to the new value there.
    pub proof fn lemma_update_at(old_m: &Self, new_m: &Self, k: Seq<char>)
        requires
            old_m.wf(),
            old_m.map_view().contains_key(k),
            new_m.keys_seq() == old_m.keys_seq(),
            new_m.vals_seq().len() == old_m.vals_seq().len(),
            forall|j: int|
                0 <= j < old_m.vals_seq().len() && j != old_m.pos(k) ==> new_m.vals_seq()[j]
                    == old_m.vals_seq()[j],
        ensures
            new_m.wf(),
            new_m.map_view() == old_m.map_view().insert(k, new_m.vals_seq()[old_m.pos(k)]@),
            new_m.map_view().contains_key(k),
            new_m.map_view()[k] == new_m.vals_seq()[old_m.pos(k)]@,
    {
        assert(old_m.pos(k) == old_m.index_of(k));
        let p = old_m.index_of(k);
        assert(0 <= p < old_m.entries@.len() && old_m.key_at(p) == k);
        assert forall|j: int| 0 <= j < new_m.entries@.len() implies new_m.key_at(j) == old_m.key_at(j) by {
            assert(new_m.keys_seq()[j] == old_m.keys_seq()[j]);
        }
        assert forall|j: int| 0 <= j < new_m.entries@.len() implies #[trigger] new_m.entries@[j].1 == new_m.vals_seq()[j] by {
        }
        new_m.lemma_at(p);
        assert forall|kk: Seq<char>| new_m.map_view().contains_key(kk) == old_m.map_view().insert(k, new_m.vals_seq()[p]@).contains_key(kk) by {
            if old_m.map_view().contains_key(kk) {
                let i = choose|i: int| 0 <= i < old_m.entries@.len() && old_m.key_at(i) == kk;
                assert(new_m.key_at(i) == kk);
            }
            if new_m.map_view().contains_key(kk) {
                let i = choose|i: int| 0 <= i < new_m.entries@.len() && new_m.key_at(i) == kk;
                assert(old_m.key_at(i) == kk);
            }
        }
        assert forall|kk: Seq<char>| #[trigger] new_m.map_view().contains_key(kk) implies new_m.map_view()[kk] == old_m.map_view().insert(k, new_m.vals_seq()[p]@)[kk] by {
            let i = choose|i: int| 0 <= i < new_m.entries@.len() && new_m.key_at(i) == kk;
            new_m.lemma_at(i);
            old_m.lemma_at(i);
            if i != p {
                assert(new_m.vals_seq()[i] == old_m.vals_seq()[i]);
            }
        }
        assert(new_m.map_view() =~= old_m.map_view().insert(k, new_m.vals_seq()[p]@));
    }

    pub fn get_mut(&mut self, k: &str) -> (r: Option<&mut V>)
        requires
            old(self).wf(),
        ensures
            match r {
                Some(v) => {
                    &&& old(self).map_view().contains_key(k@)
                    &&& v@ == old(self).map_view()[k@]
                    &&& *v == old(self).vals_seq()[old(self).pos(k@)]
                    &&& final(self).keys_seq() == old(self).keys_seq()
                    &&& final(self).vals_seq() == old(self).vals_seq().update(
                        old(self).pos(k@),
                        *final(v),
                    )
                },
                None => !old(self).map_view().contains_key(k@) && *final(self) == *old(self),
            },
    {
        match self.find(k) {
            Some(i) => {
                proof {
                    self.lemma_at(i as int);
                }
                let e = &mut self.entries[i];
                let r = &mut e.1;
                Some(r)
            },
            None => None,
        }
    }

    pub fn key_at_index(&self, i: usize) -> (r: &String)
        requires
            i < self.keys_seq().len(),
        ensures
            r@ == self.keys_seq()[i as int],
    {
        &self.entries[i].0
    }

    pub fn value_at_index(&self, i: usize) -> (r: &V)
        requires
            i < self.vals_seq().len(),
        ensures
            *r == self.vals_seq()[i as int],
    {
        &self.entries[i].1
    }

    pub fn value_at_index_mut(&mut self, i: usize) -> (r: &mut V)
        requires
            old(self).wf(),
            i < old(self).vals_seq().len(),
        ensures
            *r == old(self).vals_seq()[i as int],
            final(self).keys_seq() == old(self).keys_seq(),
            final(self).vals_seq() == old(self).vals_seq().update(i as int, *final(r)),
    {
        let e = &mut self.entries[i];
        &mut e.1
    }

    /// Binds `k` to `v`, replacing an earlier binding of `k` in place.
    pub fn insert(&mut self, k: String, v: V)
        requires
            old(self).wf(),
        ensures
            final(self).wf(),
            final(self).map_view() == old(self).map_view().insert(k@, v@),
            old(self).map_view().contains_key(k@) ==> final(self).keys_seq() == old(self).keys_seq()
                && final(self).vals_seq() == old(self).vals_seq().update(old(self).pos(k@), v),
            !old(self).map_view().contains_key(k@) ==> final(self).keys_seq() == old(self).keys_seq().push(k@)
                && final(self).vals_seq() == old(self).vals_seq().push(v),
    {
        match self.find(k.as_str()) {
            Some(i) => {
                let ghost old_m = *self;
                proof {
                    self.lemma_at(i as int);
                }
                self.entries.set(i, (k, v));
                proof {
                    assert(self.keys_seq() =~= old_m.keys_seq());
                    assert(self.vals_seq() =~= old_m.vals_seq().update(i as int, v));
                    assert(old_m.pos(self.key_at(i as int)) == i);
                    StrMap::lemma_update_at(&old_m, self, self.key_at(i as int));
                }
            },
            None => {
                let ghost old_m = *self;
                self.entries.push((k, v));
                proof {
                    let n = old_m.entries@.len() as int;
                    assert forall|a: int, b: int|
                        0 <= a < self.entries@.len() && 0 <= b < self.entries@.len() && a != b
                        implies #[trigger] self.key_at(a) != #[trigger] self.key_at(b) by {
                        if a < n && b < n {
                            assert(old_m.key_at(a) != old_m.key_at(b));
                        } else if a < n {
                            assert(old_m.key_at(a) == self.key_at(a));
                            assert(old_m.map_view().contains_key(old_m.key_at(a))) by {
                                old_m.lemma_at(a);
                            }
                        } else if b < n {
                            assert(old_m.key_at(b) == self.key_at(b));
                            assert(old_m.map_view().contains_key(old_m.key_at(b))) by {
                                old_m.lemma_at(b);
                            }
                        }
                    }
                    assert(self.keys_seq() =~= old_m.keys_seq().push(k@));
                    assert(self.vals_seq() =~= old_m.vals_seq().push(v));
                    assert forall|kk: Seq<char>| #[trigger] self.map_view().contains_key(kk) == old_m.map_view().insert(k@, v@).contains_key(kk) by {
                        if old_m.map_view().contains_key(kk) {
                            let i = choose|i: int| 0 <= i < old_m.entries@.len() && old_m.key_at(i) == kk;
                            assert(self.key_at(i) == kk);
                        }
                        if kk == k@ {
                            assert(self.key_at(n) == kk);
                        }
                        if self.map_view().contains_key(kk) {
                            let i = choose|i: int| 0 <= i < self.entries@.len() && self.key_at(i) == kk;
                            if i < n {
                                assert(old_m.key_at(i) == kk);
                            }
                        }
                    }
                    assert forall|kk: Seq<char>| #[trigger] self.map_view().contains_key(kk) implies self.map_view()[kk] == old_m.map_view().insert(k@, v@)[kk] by {
                        let i = choose|i: int| 0 <= i < self.entries@.len() && self.key_at(i) == kk;
                        self.lemma_at(i);
                        if i < n {
                            old_m.lemma_at(i);
                        }
                    }
                    assert(self.map_view() =~= old_m.map_view().insert(k@, v@));
                }
            },
        }
    }

    /// Removes the entry at storage position `i` and returns its value.
    pub fn remove_at_index(&mut self, i: usize) -> (r: V)
        requires
            old(self).wf(),
            i < old(self).keys_seq().len(),
        ensures
            final(self).wf(),
            r == old(self).vals_seq()[i as int],
            final(self).map_view() == old(self).map_view().remove(old(self).keys_seq()[i as int]),
            final(self).keys_seq() == old(self).keys_seq().remove(i as int),
            final(self).vals_seq() == old(self).vals_seq().remove(i as int),
    {
        let ghost old_m = *self;
        let (_k, v) = self.entries.remove(i);
        proof {
            let n = old_m.entries@.len() as int;
            let ii = i as int;
            let kr = old_m.key_at(ii);
            assert forall|j: int| 0 <= j < self.entries@.len() implies #[trigger] self.key_at(j) == old_m.key_at(if j < ii { j } else { j + 1 }) by {}
            assert forall|a: int, b: int|
                0 <= a < self.entries@.len() && 0 <= b < self.entries@.len() && a != b
                implies #[trigger] self.key_at(a) != #[trigger] self.key_at(b) by {
                let a2 = if a < ii { a } else { a + 1 };
                let b2 = if b < ii { b } else { b + 1 };
                assert(old_m.key_at(a2) != old_m.key_at(b2));
            }
            assert(self.keys_seq() =~= old_m.keys_seq().remove(ii));
            assert(self.vals_seq() =~= old_m.vals_seq().remove(ii));
            assert forall|kk: Seq<char>| #[trigger] self.map_view().contains_key(kk) == old_m.map_view().remove(kr).contains_key(kk) by {
                if self.map_view().contains_key(kk) {
                    let j = choose|j: int| 0 <= j < self.entries@.len() && self.key_at(j) == kk;
                    let j2 = if j < ii { j } else { j + 1 };
                    assert(old_m.key_at(j2) == kk);
                    assert(j2 != ii);
                    assert(old_m.key_at(j2) != old_m.key_at(ii));
                }
                if old_m.map_view().contains_key(kk) && kk != kr {
                    let j2 = choose|j: int| 0 <= j < old_m.entries@.len() && old_m.key_at(j) == kk;
                    assert(j2 != ii);
                    let j = if j2 < ii { j2 } else { j2 - 1 };
                    assert(self.key_at(j) == kk);
                }
            }
            assert forall|kk: Seq<char>| #[trigger] self.map_view().contains_key(kk) implies self.map_view()[kk] == old_m.map_view().remove(kr)[kk] by {
                let j = choose|j: int| 0 <= j < self.entries@.len() && self.key_at(j) == kk;
                self.lemma_at(j);
                let j2 = if j < ii { j } else { j + 1 };
                old_m.lemma_at(j2);
            }
            assert(self.map_view() =~= old_m.map_view().remove(kr));
        }
        v
    }

    /// Removes the binding of `k`, returning its value if there was one.
    pub fn remove(&mut self, k: &str) -> (r: Option<V>)
        requires
            old(self).wf(),
        ensures
            final(self).wf(),
            final(self).map_view() == old(self).map_view().remove(k@),
            match r {
                Some(v) => old(self).map_view().contains_key(k@) && v@ == old(self).map_view()[k@],
                None => !old(self).map_view().contains_key(k@),
            },
    {
        match self.find(k) {
            Some(i) => {
                proof {
                    self.lemma_at(i as int);
                }
                let v = self.remove_at_index(i);
                Some(v)
            },
            None => {
                proof {
                    assert(self.map_view().remove(k@) =~= self.map_view());
                }
                None
            },
        }
    }

    /// Two well-formed maps with the same keys in the same order and values
    /// with the same views have the same view.
    pub proof fn lemma_same_view(a: &Self, b: &Self)
        requires
            a.wf(),
            a.keys_seq() == b.keys_seq(),
            a.vals_seq().len() == b.vals_seq().len(),
            forall|i: int| 0 <= i < a.vals_seq().len() ==> #[trigger] a.vals_seq()[i]@ == b.vals_seq()[i]@,
        ensures
            b.wf(),
            b.map_view() == a.map_view(),
    {
        assert forall|j: int| 0 <= j < b.entries@.len() implies #[trigger] b.key_at(j) == a.key_at(j) by {
            assert(b.keys_seq()[j] == a.keys_seq()[j]);
        }
        assert forall|j: int| 0 <= j < b.entries@.len() implies #[trigger] b.entries@[j].1@ == a.entries@[j].1@ by {
            assert(b.vals_seq()[j] == b.entries@[j].1);
            assert(a.vals_seq()[j] == a.entries@[j].1);
        }
        assert forall|kk: Seq<char>| #[trigger] b.map_view().contains_key(kk) == a.map_view().contains_key(kk) by {
            if a.map_view().contains_key(kk) {
                let i = choose|i: int| 0 <= i < a.entries@.len() && a.key_at(i) == kk;
                assert(b.key_at(i) == kk);
            }
            if b.map_view().contains_key(kk) {
                let i = choose|i: int| 0 <= i < b.entries@.len() && b.key_at(i) == kk;
                assert(a.key_at(i) == kk);
            }
        }
        assert forall|kk: Seq<char>| #[trigger] b.map_view().contains_key(kk) implies b.map_view()[kk] == a.map_view()[kk] by {
            let i = choose|i: int| 0 <= i < b.entries@.len() && b.key_at(i) == kk;
            b.lemma_at(i);
            a.lemma_at(i);
        }
        assert(b.map_view() =~= a.map_view());
    }
}

impl<V: DeepCopy> StrMap<V> {
    /// A copy whose keys, order and value views equal those of `self`.
    pub fn deep_copy(&self) -> (r: Self)
        requires
            self.wf(),
        ensures
            r.wf(),
            r@ == self@,
            r.keys_seq() == self.keys_seq(),
    {
        let mut entries: Vec<(String, V)> = Vec::new();
        let mut i: usize = 0;
        while i < self.entries.len()
            invariant
                i <= self.entries@.len(),
                entries@.len() == i,
                forall|j: int| 0 <= j < i ==> (#[trigger] entries@[j]).0@ == self.entries@[j].0@
                    && entries@[j].1@ == self.entries@[j].1@,
            decreases self.entries@.len() - i,
        {
            let k = self.entries[i].0.clone();
            let v = self.entries[i].1.deep_copy();
            entries.push((k, v));
            i = i + 1;
        }
        let r = StrMap { entries };
        proof {
            assert(r.keys_seq() =~= self.keys_seq());
            assert forall|j: int| 0 <= j < self.vals_seq().len() implies #[trigger] self.vals_seq()[j]@ == r.vals_seq()[j]@ by {
                assert(r.entries@[j].1@ == self.entries@[j].1@);
            }
            StrMap::lemma_same_view(self, &r);
        }
        r
    }
}

impl<V: View> View for StrMap<V> {
    type V = Map<Seq<char>, V::V>;

    open spec fn view(&self) -> Map<Seq<char>, V::V> {
        self.map_view()
    }
}

} // verus!
