//! Small keyed collections with string keys: an association table and a
//! key set. Both hold each key once, and are viewed as a `Map` and a `Set`
//! over the keys' character sequences.
use vstd::prelude::*;

verus! {

/// The character sequence of a string slot key.
pub open spec fn key_view<V>(slot: (String, V)) -> Seq<char> {
    slot.0@
}

/// Whether some slot of `s` carries the key `k`.
pub open spec fn slots_have<V>(s: Seq<(String, V)>, k: Seq<char>) -> bool {
    exists|i: int| 0 <= i < s.len() && key_view(#[trigger] s[i]) == k
}

/// No two slots of `s` carry the same key.
pub open spec fn slots_distinct<V>(s: Seq<(String, V)>) -> bool {
    forall|i: int, j: int|
        0 <= i < s.len() && 0 <= j < s.len() && i != j ==> key_view(#[trigger] s[i])
            != key_view(#[trigger] s[j])
}

/// A table from string keys to values, insertion-ordered internally and
/// viewed as a map from the keys' characters to the values' deep views.
pub struct Table<V: DeepView> {
    slots: Vec<(String, V)>,
}

impl<V: DeepView> Table<V> {
    /// Each key is held once.
    #[verifier::type_invariant]
    pub closed spec fn wf(&self) -> bool {
        slots_distinct(self.slots@)
    }

    /// The keys in the table's internal order; each occurs once.
    pub closed spec fn keys(&self) -> Seq<Seq<char>> {
        self.slots@.map_values(|s: (String, V)| s.0@)
    }

    pub closed spec fn view(&self) -> Map<Seq<char>, V::V> {
        Map::new(
            |k: Seq<char>| slots_have(self.slots@, k),
            |k: Seq<char>|
                self.slots@[choose|i: int|
                    0 <= i < self.slots@.len() && key_view(#[trigger] self.slots@[i])
                        == k].1.deep_view(),
        )
    }

    proof fn lemma_slot_value(&self, i: int)
        requires
            slots_distinct(self.slots@),
            0 <= i < self.slots@.len(),
        ensures
            self.view().contains_key(self.slots@[i].0@),
            self.view()[self.slots@[i].0@] == self.slots@[i].1.deep_view(),
    {
        let k = self.slots@[i].0@;
        assert(key_view(self.slots@[i]) == k);
        let j = choose|j: int| 0 <= j < self.slots@.len() && key_view(#[trigger] self.slots@[j]) == k;
        assert(j == i);
    }

    /// Facts that tie the key sequence to the map view.
    pub proof fn lemma_keys(&self)
        requires
            self.wf(),
        ensures
            self.keys().no_duplicates(),
            self.keys().to_set() == self.view().dom(),
            self.keys().len() == self.view().len(),
    {
        let ks = self.keys();
        assert forall|i: int, j: int| 0 <= i < ks.len() && 0 <= j < ks.len() && i != j implies ks[i]
            != ks[j] by {
            assert(key_view(self.slots@[i]) != key_view(self.slots@[j]));
        }
        assert forall|k: Seq<char>| ks.to_set().contains(k) <==> self.view().dom().contains(k) by {
            if ks.to_set().contains(k) {
                let i = choose|i: int| 0 <= i < ks.len() && ks[i] == k;
                assert(key_view(self.slots@[i]) == k);
            }
            if self.view().dom().contains(k) {
                let i = choose|i: int| 0 <= i < self.slots@.len() && key_view(#[trigger] self.slots@[i]) == k;
                assert(ks[i] == k);
            }
        }
        assert(ks.to_set() =~= self.view().dom());
        ks.unique_seq_to_set();
    }

    pub fn new() -> (r: Self)
        ensures
            r@ == Map::<Seq<char>, V::V>::empty(),
            r.keys() == Seq::<Seq<char>>::empty(),
    {
        let r = Table { slots: Vec::new() };
        assert(r@ =~= Map::<Seq<char>, V::V>::empty());
        assert(r.keys() =~= Seq::<Seq<char>>::empty());
        r
    }

    /// The number of keys in the table.
    pub fn len(&self) -> (r: usize)
        ensures
            r == self.keys().len(),
            r == self@.len(),
    {
        proof {
            use_type_invariant(self);
            self.lemma_keys();
        }
        self.slots.len()
    }

    /// The key at position `i` of the table's internal order.
    pub fn key_at(&self, i: usize) -> (r: &String)
        requires
            i < self.keys().len(),
        ensures
            r@ == self.keys()[i as int],
    {
        &self.slots[i].0
    }

    /// The value at position `i` of the table's internal order.
    pub fn value_at(&self, i: usize) -> (r: &V)
        requires
            i < self.keys().len(),
        ensures
            self@.contains_key(self.keys()[i as int]),
            r.deep_view() == self@[self.keys()[i as int]],
    {
        proof {
            use_type_invariant(self);
            self.lemma_slot_value(i as int);
        }
        &self.slots[i].1
    }

    fn find(&self, key: &str) -> (r: Option<usize>)
        ensures
            match r {
                Some(i) => i < self.slots@.len() && self.slots@[i as int].0@ == key@,
                None => !slots_have(self.slots@, key@),
            },
    {
        let n = self.slots.len();
        let mut i: usize = 0;
        while i < n
            invariant
                n == self.slots@.len(),
                i <= n,
                forall|j: int| 0 <= j < i ==> key_view(#[trigger] self.slots@[j]) != key@,
            decreases n - i,
        {
            if str_equal(self.slots[i].0.as_str(), key) {
                return Some(i);
            }
            i = i + 1;
        }
        None
    }

    pub fn contains_key(&self, key: &str) -> (r: bool)
        ensures
            r == self@.contains_key(key@),
    {
        self.find(key).is_some()
    }

    pub fn get(&self, key: &str) -> (r: Option<&V>)
        ensures
            r is Some == self@.contains_key(key@),
            r matches Some(v) ==> v.deep_view() == self@[key@],
    {
        proof {
            use_type_invariant(self);
        }
        match self.find(key) {
            Some(i) => {
                proof {
                    self.lemma_slot_value(i as int);
                }
                Some(&self.slots[i].1)
            },
            None => None,
        }
    }

    /// Sets `key` to `value`, replacing what the key held. A new key goes
    /// last in the internal order; a present key keeps its place.
    pub fn insert(&mut self, key: String, value: V)
        ensures
            final(self)@ == old(self)@.insert(key@, value.deep_view()),
            old(self)@.contains_key(key@) ==> final(self).keys() == old(self).keys(),
            !old(self)@.contains_key(key@) ==> final(self).keys() == old(self).keys().push(key@),
    {
        proof {
            use_type_invariant(&*self);
        }
        let ghost old_slots = self.slots@;
        let ghost k = key@;
        let ghost vv = value.deep_view();
        match self.find(key.as_str()) {
            Some(i) => {
                let ghost old_self = *self;
                let mut slots: Vec<(String, V)> = Vec::new();
                std::mem::swap(&mut slots, &mut self.slots);
                slots.set(i, (key, value));
                assert(slots_distinct(slots@)) by {
                    assert forall|a: int, b: int|
                        0 <= a < slots@.len() && 0 <= b < slots@.len() && a != b implies key_view(
                        #[trigger] slots@[a],
                    ) != key_view(#[trigger] slots@[b]) by {
                        assert(key_view(old_slots[a]) != key_view(old_slots[b]));
                    }
                }
                self.slots = slots;
                proof {
                    let new_view = old_self@.insert(k, vv);
                    assert forall|q: Seq<char>| self@.dom().contains(q) <==> new_view.dom().contains(q) by {
                        if slots_have(self.slots@, q) {
                            let a = choose|a: int| 0 <= a < self.slots@.len() && key_view(#[trigger] self.slots@[a]) == q;
                            if a != i {
                                assert(key_view(old_slots[a]) == q);
                            }
                        }
                        if slots_have(old_slots, q) {
                            let a = choose|a: int| 0 <= a < old_slots.len() && key_view(#[trigger] old_slots[a]) == q;
                            assert(key_view(self.slots@[a]) == q);
                        }
                    }
                    assert forall|q: Seq<char>| #[trigger] self@.dom().contains(q) implies self@[q] == new_view[q] by {
                        let a = choose|a: int| 0 <= a < self.slots@.len() && key_view(#[trigger] self.slots@[a]) == q;
                        self.lemma_slot_value(a);
                        if a != i {
                            old_self.lemma_slot_value(a);
                        }
                    }
                    assert(self@ =~= new_view);
                    assert(self.keys() =~= old_self.keys());
                }
            },
            None => {
                let ghost old_self = *self;
                let mut slots: Vec<(String, V)> = Vec::new();
                std::mem::swap(&mut slots, &mut self.slots);
                slots.push((key, value));
                assert(slots_distinct(slots@)) by {
                    assert forall|a: int, b: int|
                        0 <= a < slots@.len() && 0 <= b < slots@.len() && a != b implies key_view(
                        #[trigger] slots@[a],
                    ) != key_view(#[trigger] slots@[b]) by {
                        if a < old_slots.len() && b < old_slots.len() {
                            assert(key_view(old_slots[a]) != key_view(old_slots[b]));
                        } else if a < old_slots.len() {
                            assert(key_view(old_slots[a]) != k);
                        } else {
                            assert(key_view(old_slots[b]) != k);
                        }
                    }
                }
                self.slots = slots;
                proof {
                    let n = old_slots.len() as int;
                    let new_view = old_self@.insert(k, vv);
                    assert forall|q: Seq<char>| self@.dom().contains(q) <==> new_view.dom().contains(q) by {
                        if slots_have(self.slots@, q) {
                            let a = choose|a: int| 0 <= a < self.slots@.len() && key_view(#[trigger] self.slots@[a]) == q;
                            if a != n {
                                assert(key_view(old_slots[a]) == q);
                            }
                        }
                        if slots_have(old_slots, q) {
                            let a = choose|a: int| 0 <= a < old_slots.len() && key_view(#[trigger] old_slots[a]) == q;
                            assert(key_view(self.slots@[a]) == q);
                        }
                        if q == k {
                            assert(key_view(self.slots@[n]) == q);
                        }
                    }
                    assert forall|q: Seq<char>| #[trigger] self@.dom().contains(q) implies self@[q] == new_view[q] by {
                        let a = choose|a: int| 0 <= a < self.slots@.len() && key_view(#[trigger] self.slots@[a]) == q;
                        self.lemma_slot_value(a);
                        if a != n {
                            old_self.lemma_slot_value(a);
                        }
                    }
                    assert(self@ =~= new_view);
                    assert(self.keys() =~= old_self.keys().push(k));
                }
            },
        }
    }

    /// Removes `key` and what it held, if present.
    pub fn remove(&mut self, key: &str)
        ensures
            final(self)@ == old(self)@.remove(key@),
    {
        proof {
            use_type_invariant(&*self);
        }
        let ghost old_slots = self.slots@;
        let ghost old_self = *self;
        let ghost k = key@;
        match self.find(key) {
            Some(i) => {
                let mut slots: Vec<(String, V)> = Vec::new();
                std::mem::swap(&mut slots, &mut self.slots);
                slots.remove(i);
                assert(slots_distinct(slots@)) by {
                    assert forall|a: int, b: int|
                        0 <= a < slots@.len() && 0 <= b < slots@.len() && a != b implies key_view(
                        #[trigger] slots@[a],
                    ) != key_view(#[trigger] slots@[b]) by {
                        let oa = if a < i { a } else { a + 1 };
                        let ob = if b < i { b } else { b + 1 };
                        assert(slots@[a] == old_slots[oa]);
                        assert(slots@[b] == old_slots[ob]);
                        assert(key_view(old_slots[oa]) != key_view(old_slots[ob]));
                    }
                }
                self.slots = slots;
                proof {
                    let new_view = old_self@.remove(k);
                    assert forall|q: Seq<char>| self@.dom().contains(q) <==> new_view.dom().contains(q) by {
                        if slots_have(self.slots@, q) {
                            let a = choose|a: int| 0 <= a < self.slots@.len() && key_view(#[trigger] self.slots@[a]) == q;
                            let oa = if a < i { a } else { a + 1 };
                            assert(self.slots@[a] == old_slots[oa]);
                            assert(key_view(old_slots[oa]) == q);
                            assert(key_view(old_slots[i as int]) == k);
                            assert(oa != i);
                        }
                        if slots_have(old_slots, q) && q != k {
                            let a = choose|a: int| 0 <= a < old_slots.len() && key_view(#[trigger] old_slots[a]) == q;
                            assert(a != i);
                            let na = if a < i { a } else { a - 1 };
                            assert(self.slots@[na] == old_slots[a]);
                            assert(key_view(self.slots@[na]) == q);
                        }
                    }
                    assert forall|q: Seq<char>| #[trigger] self@.dom().contains(q) implies self@[q] == new_view[q] by {
                        let a = choose|a: int| 0 <= a < self.slots@.len() && key_view(#[trigger] self.slots@[a]) == q;
                        self.lemma_slot_value(a);
                        let oa = if a < i { a } else { a + 1 };
                        assert(self.slots@[a] == old_slots[oa]);
                        old_self.lemma_slot_value(oa);
                    }
                    assert(self@ =~= new_view);
                }
            },
            None => {
                proof {
                    assert(self@ =~= old_self@.remove(k));
                }
            },
        }
    }

    /// The keys, in the table's internal order.
    pub fn key_list(&self) -> (r: Vec<String>)
        ensures
            r@.len() == self.keys().len(),
            forall|i: int| 0 <= i < r@.len() ==> #[trigger] r@[i]@ == self.keys()[i],
    {
        let mut r: Vec<String> = Vec::new();
        let n = self.slots.len();
        let mut i: usize = 0;
        while i < n
            invariant
                n == self.slots@.len(),
                i <= n,
                r@.len() == i,
                forall|j: int| 0 <= j < i ==> #[trigger] r@[j]@ == self.keys()[j],
            decreases n - i,
        {
            r.push(self.slots[i].0.clone());
            i = i + 1;
        }
        r
    }

    /// Keeps only the keys that `keep` holds.
    pub fn retain_keys_in<W: DeepView>(&mut self, keep: &Table<W>)
        ensures
            final(self)@ == old(self)@.restrict(keep@.dom()),
    {
        let ghost old_view = self@;
        let ks = self.key_list();
        let n = ks.len();
        proof {
            use_type_invariant(&*self);
            self.lemma_keys();
            let ghost kset = Set::new(|q: Seq<char>| exists|j: int| 0 <= j < n && #[trigger] ks@[j]@ == q);
            assert forall|q: Seq<char>| kset.contains(q) <==> self.keys().to_set().contains(q) by {
                if kset.contains(q) {
                    let j = choose|j: int| 0 <= j < n && #[trigger] ks@[j]@ == q;
                    assert(self.keys()[j] == q);
                }
                if self.keys().to_set().contains(q) {
                    let j = choose|j: int| 0 <= j < self.keys().len() && self.keys()[j] == q;
                    assert(ks@[j]@ == q);
                }
            }
            assert(old_view.dom() =~= kset);
        }
        let mut i: usize = 0;
        while i < n
            invariant
                n == ks@.len(),
                i <= n,
                old_view.dom() == Set::new(|q: Seq<char>| exists|j: int| 0 <= j < n && #[trigger] ks@[j]@ == q),
                forall|q: Seq<char>| #[trigger] self@.contains_key(q) <==> (old_view.contains_key(q) && (
                    keep@.contains_key(q) || !(exists|j: int| 0 <= j < i && #[trigger] ks@[j]@ == q))),
                forall|q: Seq<char>| #[trigger] self@.contains_key(q) ==> self@[q] == old_view[q],
            decreases n - i,
        {
            if !keep.contains_key(ks[i].as_str()) {
                self.remove(ks[i].as_str());
            }
            proof {
                let ghost ki = ks@[i as int]@;
                assert forall|q: Seq<char>| #[trigger] self@.contains_key(q) <==> (old_view.contains_key(q) && (
                    keep@.contains_key(q) || !(exists|j: int| 0 <= j < i + 1 && #[trigger] ks@[j]@ == q))) by {
                    if q != ki {
                        if exists|j: int| 0 <= j < i + 1 && #[trigger] ks@[j]@ == q {
                            let j = choose|j: int| 0 <= j < i + 1 && #[trigger] ks@[j]@ == q;
                            assert(j < i);
                        }
                    } else {
                        assert(ks@[i as int]@ == q);
                    }
                }
            }
            i = i + 1;
        }
        proof {
            assert forall|q: Seq<char>| #[trigger] self@.contains_key(q) <==> old_view.restrict(keep@.dom()).contains_key(q) by {
                if old_view.contains_key(q) {
                    assert(old_view.dom().contains(q));
                    let j = choose|j: int| 0 <= j < n && #[trigger] ks@[j]@ == q;
                    assert(ks@[j]@ == q);
                }
            }
            assert(self@ =~= old_view.restrict(keep@.dom()));
        }
    }
}

/// Membership in `s`, as a predicate.
pub open spec fn in_set(s: Set<Seq<char>>) -> spec_fn(Seq<char>) -> bool {
    |k: Seq<char>| s.contains(k)
}

/// Filtering a prefix one element longer adds that element when it passes.
pub proof fn lemma_filter_take_step<A>(s: Seq<A>, p: spec_fn(A) -> bool, i: int)
    requires
        0 <= i < s.len(),
    ensures
        s.take(i + 1).filter(p) == (if p(s[i]) {
            s.take(i).filter(p).push(s[i])
        } else {
            s.take(i).filter(p)
        }),
{
    reveal_with_fuel(Seq::filter, 2);
    assert(s.take(i + 1).drop_last() =~= s.take(i));
    assert(s.take(i + 1).last() == s[i]);
}

/// The strings of `v` that `keep` holds as keys, in order.
pub fn filter_strings_in<W: DeepView>(v: &Vec<String>, keep: &Table<W>) -> (r: Vec<String>)
    ensures
        r.deep_view() == v.deep_view().filter(in_set(keep@.dom())),
{
    let ghost dv = v.deep_view();
    let ghost p = in_set(keep@.dom());
    let mut r: Vec<String> = Vec::new();
    let n = v.len();
    let mut i: usize = 0;
    while i < n
        invariant
            n == v@.len(),
            dv == v.deep_view(),
            p == in_set(keep@.dom()),
            i <= n,
            r.deep_view() == dv.take(i as int).filter(p),
        decreases n - i,
    {
        proof {
            lemma_filter_take_step(dv, p, i as int);
        }
        let ghost before = r.deep_view();
        if keep.contains_key(v[i].as_str()) {
            r.push(v[i].clone());
            assert(r.deep_view() =~= before.push(dv[i as int]));
        }
        i = i + 1;
    }
    assert(dv.take(n as int) =~= dv);
    r
}

impl Table<u64> {
    /// Keeps only the keys whose value is at least `bound`.
    pub fn retain_at_least(&mut self, bound: u64)
        ensures
            final(self)@ == old(self)@.restrict(old(self)@.dom().filter(|k: Seq<char>| old(self)@[k] >= bound)),
    {
        let ghost old_view = self@;
        let ks = self.key_list();
        let n = ks.len();
        proof {
            use_type_invariant(&*self);
            self.lemma_keys();
            let ghost kset = Set::new(|q: Seq<char>| exists|j: int| 0 <= j < n && #[trigger] ks@[j]@ == q);
            assert forall|q: Seq<char>| kset.contains(q) <==> self.keys().to_set().contains(q) by {
                if kset.contains(q) {
                    let j = choose|j: int| 0 <= j < n && #[trigger] ks@[j]@ == q;
                    assert(self.keys()[j] == q);
                }
                if self.keys().to_set().contains(q) {
                    let j = choose|j: int| 0 <= j < self.keys().len() && self.keys()[j] == q;
                    assert(ks@[j]@ == q);
                }
            }
            assert(old_view.dom() =~= kset);
        }
        let mut i: usize = 0;
        while i < n
            invariant
                n == ks@.len(),
                i <= n,
                old_view.dom() == Set::new(|q: Seq<char>| exists|j: int| 0 <= j < n && #[trigger] ks@[j]@ == q),
                forall|q: Seq<char>| #[trigger] self@.contains_key(q) <==> (old_view.contains_key(q) && (
                    old_view[q] >= bound || !(exists|j: int| 0 <= j < i && #[trigger] ks@[j]@ == q))),
                forall|q: Seq<char>| #[trigger] self@.contains_key(q) ==> self@[q] == old_view[q],
            decreases n - i,
        {
            let keep = match self.get(ks[i].as_str()) {
                Some(g) => *g >= bound,
                None => true,
            };
            if !keep {
                self.remove(ks[i].as_str());
            }
            proof {
                let ghost ki = ks@[i as int]@;
                assert forall|q: Seq<char>| #[trigger] self@.contains_key(q) <==> (old_view.contains_key(q) && (
                    old_view[q] >= bound || !(exists|j: int| 0 <= j < i + 1 && #[trigger] ks@[j]@ == q))) by {
                    if q != ki {
                        if exists|j: int| 0 <= j < i + 1 && #[trigger] ks@[j]@ == q {
                            let j = choose|j: int| 0 <= j < i + 1 && #[trigger] ks@[j]@ == q;
                            assert(j < i);
                        }
                    } else {
                        assert(ks@[i as int]@ == q);
                    }
                }
            }
            i = i + 1;
        }
        proof {
            let live = old_view.dom().filter(|k: Seq<char>| old_view[k] >= bound);
            assert forall|q: Seq<char>| #[trigger] self@.contains_key(q) <==> old_view.restrict(live).contains_key(q) by {
                if old_view.contains_key(q) {
                    assert(old_view.dom().contains(q));
                    let j = choose|j: int| 0 <= j < n && #[trigger] ks@[j]@ == q;
                    assert(ks@[j]@ == q);
                }
            }
            assert(self@ =~= old_view.restrict(live));
        }
    }
}

impl Table<Vec<String>> {
    /// Filters every list held to the strings that `keep` holds as keys.
    pub fn filter_lists_in<W: DeepView>(&mut self, keep: &Table<W>)
        ensures
            final(self)@ == old(self)@.map_values(|l: Seq<Seq<char>>| l.filter(in_set(keep@.dom()))),
    {
        let ghost old_view = self@;
        let ghost p = in_set(keep@.dom());
        let ks = self.key_list();
        let n = ks.len();
        proof {
            use_type_invariant(&*self);
            self.lemma_keys();
            let ghost kset = Set::new(|q: Seq<char>| exists|j: int| 0 <= j < n && #[trigger] ks@[j]@ == q);
            assert forall|q: Seq<char>| kset.contains(q) <==> self.keys().to_set().contains(q) by {
                if kset.contains(q) {
                    let j = choose|j: int| 0 <= j < n && #[trigger] ks@[j]@ == q;
                    assert(self.keys()[j] == q);
                }
                if self.keys().to_set().contains(q) {
                    let j = choose|j: int| 0 <= j < self.keys().len() && self.keys()[j] == q;
                    assert(ks@[j]@ == q);
                }
            }
            assert(old_view.dom() =~= kset);
            assert forall|a: int, b: int| 0 <= a < n && 0 <= b < n && a != b implies (#[trigger] ks@[a])@ != (#[trigger] ks@[b])@ by {
                assert(ks@[a]@ == self.keys()[a]);
                assert(ks@[b]@ == self.keys()[b]);
            }
        }
        let mut i: usize = 0;
        while i < n
            invariant
                n == ks@.len(),
                i <= n,
                p == in_set(keep@.dom()),
                forall|a: int, b: int| 0 <= a < n && 0 <= b < n && a != b ==> (#[trigger] ks@[a])@ != (#[trigger] ks@[b])@,
                old_view.dom() == Set::new(|q: Seq<char>| exists|j: int| 0 <= j < n && #[trigger] ks@[j]@ == q),
                self@.dom() == old_view.dom(),
                forall|q: Seq<char>| #[trigger] self@.contains_key(q) ==> self@[q] == (if exists|j: int| 0 <= j < i && #[trigger] ks@[j]@ == q {
                    old_view[q].filter(p)
                } else {
                    old_view[q]
                }),
            decreases n - i,
        {
            let ghost ki = ks@[i as int]@;
            let filtered = match self.get(ks[i].as_str()) {
                Some(l) => Some(filter_strings_in(l, keep)),
                None => None,
            };
            match filtered {
                Some(f) => {
                    self.insert(ks[i].clone(), f);
                },
                None => {},
            }
            proof {
                assert(old_view.dom().contains(ki));
                assert forall|q: Seq<char>| #[trigger] self@.contains_key(q) implies self@[q] == (if exists|j: int| 0 <= j < i + 1 && #[trigger] ks@[j]@ == q {
                    old_view[q].filter(p)
                } else {
                    old_view[q]
                }) by {
                    if q != ki {
                        if exists|j: int| 0 <= j < i + 1 && #[trigger] ks@[j]@ == q {
                            let j = choose|j: int| 0 <= j < i + 1 && #[trigger] ks@[j]@ == q;
                            assert(j < i);
                        }
                    } else {
                        assert(ks@[i as int]@ == q);
                        if exists|j: int| 0 <= j < i && #[trigger] ks@[j]@ == q {
                            let j = choose|j: int| 0 <= j < i && #[trigger] ks@[j]@ == q;
                            assert(ks@[j]@ == ks@[i as int]@);
                        }
                    }
                }
                assert(self@.dom() =~= old_view.dom());
            }
            i = i + 1;
        }
        proof {
            let target = old_view.map_values(|l: Seq<Seq<char>>| l.filter(p));
            assert forall|q: Seq<char>| #[trigger] self@.contains_key(q) implies self@[q] == target[q] by {
                assert(old_view.dom().contains(q));
                let j = choose|j: int| 0 <= j < n && #[trigger] ks@[j]@ == q;
                assert(ks@[j]@ == q);
            }
            assert(self@ =~= target);
        }
    }
}

/// A set of string keys, each held once.
pub struct KeySet {
    table: Table<()>,
}

impl KeySet {
    pub closed spec fn view(&self) -> Set<Seq<char>> {
        self.table@.dom()
    }

    /// The table whose keys are this set's members.
    pub closed spec fn members(&self) -> Table<()> {
        self.table
    }

    pub fn new() -> (r: Self)
        ensures
            r@ == Set::<Seq<char>>::empty(),
    {
        let r = KeySet { table: Table::new() };
        assert(r@ =~= Set::<Seq<char>>::empty());
        r
    }

    pub fn len(&self) -> (r: usize)
        ensures
            r == self@.len(),
    {
        self.table.len()
    }

    pub fn contains(&self, key: &str) -> (r: bool)
        ensures
            r == self@.contains(key@),
    {
        self.table.contains_key(key)
    }

    pub fn insert(&mut self, key: String)
        ensures
            final(self)@ == old(self)@.insert(key@),
    {
        self.table.insert(key, ());
        assert(self@ =~= old(self)@.insert(key@));
    }

    pub fn remove(&mut self, key: &str)
        ensures
            final(self)@ == old(self)@.remove(key@),
    {
        self.table.remove(key);
        assert(self@ =~= old(self)@.remove(key@));
    }

    /// Keeps only the members that are keys of `keep`.
    pub fn retain_keys_in<W: DeepView>(&mut self, keep: &Table<W>)
        ensures
            final(self)@ == old(self)@.intersect(keep@.dom()),
    {
        self.table.retain_keys_in(keep);
        assert(self@ =~= old(self)@.intersect(keep@.dom()));
    }

    /// Keeps only the members that `keep` holds too.
    pub fn retain_members_of(&mut self, keep: &KeySet)
        ensures
            final(self)@ == old(self)@.intersect(keep@),
    {
        self.table.retain_keys_in(&keep.table);
        assert(self@ =~= old(self)@.intersect(keep@));
    }

    /// The members, in the set's internal order.
    pub fn to_vec(&self) -> (r: Vec<String>)
        ensures
            r@.len() == self@.len(),
            forall|i: int| 0 <= i < r@.len() ==> self@.contains(#[trigger] r@[i]@),
            forall|q: Seq<char>| #[trigger] self@.contains(q) ==> exists|i: int| 0 <= i < r@.len() && r@[i]@ == q,
    {
        proof {
            use_type_invariant(&self.table);
            self.table.lemma_keys();
        }
        let r = self.table.key_list();
        proof {
            let ks = self.table.keys();
            assert forall|i: int| 0 <= i < r@.len() implies self@.contains(#[trigger] r@[i]@) by {
                assert(ks.to_set().contains(ks[i]));
            }
            assert forall|q: Seq<char>| #[trigger] self@.contains(q) implies exists|i: int| 0 <= i < r@.len() && r@[i]@ == q by {
                assert(ks.to_set().contains(q));
                let i = choose|i: int| 0 <= i < ks.len() && ks[i] == q;
                assert(r@[i]@ == q);
            }
        }
        r
    }
}

/// Whether two string slices hold the same characters.
pub fn str_equal(a: &str, b: &str) -> (r: bool)
    ensures
        r == (a@ == b@),
{
    let sa = a.to_owned();
    let sb = b.to_owned();
    sa == sb
}

} // verus!
