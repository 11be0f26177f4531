use vstd::prelude::*;

verus! {

/// The runtime type identifier: one token per concrete type, used as the key
/// of every registry.
pub type TypeKey = u64;

/// One entry of a [`TypeTable`]: a key and what is stored under it.
pub struct Slot<E> {
    pub key: TypeKey,
    pub item: E,
}

/// A mapping from type keys to items, kept as a list of slots with distinct
/// keys. Its meaning is the map `self@`.
pub struct TypeTable<E> {
    slots: Vec<Slot<E>>,
}

/// Whether no two slots of `s` share a key.
pub open spec fn keys_distinct<E>(s: Seq<Slot<E>>) -> bool {
    forall|i: int, j: int|
        0 <= i < s.len() && 0 <= j < s.len() && i != j ==> #[trigger] s[i].key != #[trigger] s[j].key
}

/// Whether some slot of `s` has key `k`.
pub open spec fn has_key<E>(s: Seq<Slot<E>>, k: TypeKey) -> bool {
    exists|i: int| 0 <= i < s.len() && #[trigger] s[i].key == k
}

/// The position of a slot of `s` with key `k`.
pub open spec fn index_of<E>(s: Seq<Slot<E>>, k: TypeKey) -> int {
    choose|i: int| 0 <= i < s.len() && #[trigger] s[i].key == k
}

/// The map that a list of slots stands for.
pub open spec fn slots_map<E>(s: Seq<Slot<E>>) -> Map<TypeKey, E> {
    Map::new(|k: TypeKey| has_key(s, k), |k: TypeKey| s[index_of(s, k)].item)
}

proof fn lemma_index_of<E>(s: Seq<Slot<E>>, i: int)
    requires
        keys_distinct(s),
        0 <= i < s.len(),
    ensures
        has_key(s, s[i].key),
        index_of(s, s[i].key) == i,
{
    let k = s[i].key;
    assert(has_key(s, k));
    let j = index_of(s, k);
    assert(s[j].key == k);
}

proof fn lemma_map_at<E>(s: Seq<Slot<E>>, i: int)
    requires
        keys_distinct(s),
        0 <= i < s.len(),
    ensures
        slots_map(s).contains_key(s[i].key),
        slots_map(s)[s[i].key] == s[i].item,
{
    lemma_index_of(s, i);
}

proof fn lemma_map_update<E>(s: Seq<Slot<E>>, i: int, v: E)
    requires
        keys_distinct(s),
        0 <= i < s.len(),
    ensures
        keys_distinct(s.update(i, Slot { key: s[i].key, item: v })),
        slots_map(s.update(i, Slot { key: s[i].key, item: v })) =~= slots_map(s).insert(s[i].key, v),
{
    let k = s[i].key;
    let t = s.update(i, Slot { key: k, item: v });
    assert(keys_distinct(t)) by {
        assert forall|a: int, b: int|
            0 <= a < t.len() && 0 <= b < t.len() && a != b implies #[trigger] t[a].key
            != #[trigger] t[b].key by {
            assert(t[a].key == s[a].key);
            assert(t[b].key == s[b].key);
        }
    }
    assert forall|q: TypeKey| #[trigger] has_key(t, q) == (has_key(s, q) || q == k) by {
        if has_key(t, q) {
            let j = index_of(t, q);
            assert(s[j].key == q);
        }
        if has_key(s, q) {
            let j = index_of(s, q);
            assert(t[j].key == q);
        }
        if q == k {
            assert(t[i].key == q);
        }
    }
    assert forall|q: TypeKey| has_key(t, q) implies #[trigger] slots_map(t)[q] == slots_map(
        s,
    ).insert(k, v)[q] by {
        let j = index_of(t, q);
        lemma_index_of(t, j);
        if q != k {
            lemma_index_of(s, j);
        }
    }
}

proof fn lemma_map_push<E>(s: Seq<Slot<E>>, k: TypeKey, v: E)
    requires
        keys_distinct(s),
        !has_key(s, k),
    ensures
        keys_distinct(s.push(Slot { key: k, item: v })),
        slots_map(s.push(Slot { key: k, item: v })) =~= slots_map(s).insert(k, v),
{
    let t = s.push(Slot { key: k, item: v });
    assert(keys_distinct(t)) by {
        assert forall|a: int, b: int|
            0 <= a < t.len() && 0 <= b < t.len() && a != b implies #[trigger] t[a].key
            != #[trigger] t[b].key by {
            if a < s.len() && b < s.len() {
                assert(t[a].key == s[a].key && t[b].key == s[b].key);
            } else if a < s.len() {
                assert(s[a].key == t[a].key);
            } else {
                assert(s[b].key == t[b].key);
            }
        }
    }
    assert forall|q: TypeKey| #[trigger] has_key(t, q) == (has_key(s, q) || q == k) by {
        if has_key(t, q) {
            let j = index_of(t, q);
            if j < s.len() {
                assert(s[j].key == q);
            }
        }
        if has_key(s, q) {
            let j = index_of(s, q);
            assert(t[j].key == q);
        }
        if q == k {
            assert(t[s.len() as int].key == q);
        }
    }
    assert forall|q: TypeKey| has_key(t, q) implies #[trigger] slots_map(t)[q] == slots_map(
        s,
    ).insert(k, v)[q] by {
        let j = index_of(t, q);
        lemma_index_of(t, j);
        if j < s.len() {
            lemma_index_of(s, j);
        }
    }
}

proof fn lemma_map_remove<E>(s: Seq<Slot<E>>, i: int)
    requires
        keys_distinct(s),
        0 <= i < s.len(),
    ensures
        keys_distinct(s.remove(i)),
        slots_map(s.remove(i)) =~= slots_map(s).remove(s[i].key),
{
    let k = s[i].key;
    let t = s.remove(i);
    assert forall|j: int| 0 <= j < t.len() implies #[trigger] t[j] == (if j < i {
        s[j]
    } else {
        s[j + 1]
    }) by {}
    assert(keys_distinct(t)) by {
        assert forall|a: int, b: int|
            0 <= a < t.len() && 0 <= b < t.len() && a != b implies #[trigger] t[a].key
            != #[trigger] t[b].key by {
            let a2 = if a < i { a } else { a + 1 };
            let b2 = if b < i { b } else { b + 1 };
            assert(t[a] == s[a2] && t[b] == s[b2]);
        }
    }
    assert forall|q: TypeKey| #[trigger] has_key(t, q) == (has_key(s, q) && q != k) by {
        if has_key(t, q) {
            let j = index_of(t, q);
            let j2 = if j < i { j } else { j + 1 };
            assert(t[j] == s[j2]);
            assert(s[j2].key == q);
            assert(j2 != i);
        }
        if has_key(s, q) && q != k {
            let j = index_of(s, q);
            assert(j != i);
            let j1 = if j < i { j } else { j - 1 };
            assert(t[j1] == s[j]);
            assert(t[j1].key == q);
        }
    }
    assert forall|q: TypeKey| has_key(t, q) implies #[trigger] slots_map(t)[q] == slots_map(
        s,
    ).remove(k)[q] by {
        let j = index_of(t, q);
        lemma_index_of(t, j);
        let j2 = if j < i { j } else { j + 1 };
        assert(t[j] == s[j2]);
        lemma_index_of(s, j2);
    }
}

impl<E> View for TypeTable<E> {
    type V = Map<TypeKey, E>;

    closed spec fn view(&self) -> Map<TypeKey, E> {
        slots_map(self.slots@)
    }
}

impl<E> TypeTable<E> {
    /// The table's invariant: no key occurs twice.
    pub closed spec fn wf(&self) -> bool {
        keys_distinct(self.slots@)
    }

    /// An empty table.
    pub fn new() -> (t: Self)
        ensures
            t.wf(),
            t@ == Map::<TypeKey, E>::empty(),
    {
        let t = TypeTable { slots: Vec::new() };
        assert(t@ =~= Map::<TypeKey, E>::empty());
        t
    }

    /// The position of the slot with key `k`, if any.
    fn position(&self, k: TypeKey) -> (r: Option<usize>)
        requires
            self.wf(),
        ensures
            match r {
                Some(i) => i < self.slots@.len() && self.slots@[i as int].key == k,
                None => !self@.contains_key(k),
            },
    {
        let mut i: usize = 0;
        while i < self.slots.len()
            invariant
                i <= self.slots@.len(),
                forall|j: int| 0 <= j < i ==> #[trigger] self.slots@[j].key != k,
            decreases self.slots@.len() - i,
        {
            if self.slots[i].key == k {
                return Some(i);
            }
            i = i + 1;
        }
        assert(!has_key(self.slots@, k));
        None
    }

    /// Whether an item is stored under `k`.
    pub fn contains(&self, k: TypeKey) -> (r: bool)
        requires
            self.wf(),
        ensures
            r == self@.contains_key(k),
    {
        match self.position(k) {
            Some(i) => {
                proof {
                    lemma_map_at(self.slots@, i as int);
                }
                true
            },
            None => false,
        }
    }

    /// Stores `v` under `k`, replacing what was there.
    pub fn insert(&mut self, k: TypeKey, v: E)
        requires
            old(self).wf(),
        ensures
            final(self).wf(),
            final(self)@ == old(self)@.insert(k, v),
    {
        match self.position(k) {
            Some(i) => {
                proof {
                    lemma_map_update(self.slots@, i as int, v);
                }
                self.slots.set(i, Slot { key: k, item: v });
            },
            None => {
                proof {
                    lemma_map_push(self.slots@, k, v);
                }
                self.slots.push(Slot { key: k, item: v });
            },
        }
    }

    /// The item stored under `k`, if any.
    pub fn get(&self, k: TypeKey) -> (r: Option<&E>)
        requires
            self.wf(),
        ensures
            match r {
                Some(x) => self@.contains_key(k) && *x == self@[k],
                None => !self@.contains_key(k),
            },
    {
        match self.position(k) {
            Some(i) => {
                proof {
                    lemma_map_at(self.slots@, i as int);
                }
                Some(&self.slots[i].item)
            },
            None => None,
        }
    }

    /// Mutable access to the item stored under `k`, if any; whatever is
    /// written through it becomes the item under `k`.
    pub fn get_mut(&mut self, k: TypeKey) -> (r: Option<&mut E>)
        requires
            old(self).wf(),
        ensures
            final(self).wf(),
            r is Some ==> old(self)@.contains_key(k) && *r->0 == old(self)@[k] && final(self)@
                == old(self)@.insert(k, *final(r->0)),
            r is None ==> !old(self)@.contains_key(k) && *final(self) == *old(self),
    {
        match self.position(k) {
            Some(i) => {
                proof {
                    lemma_map_at(self.slots@, i as int);
                    assert forall|v: E|
                        #![trigger self.slots@.update(i as int, Slot { key: k, item: v })]
                        keys_distinct(self.slots@.update(i as int, Slot { key: k, item: v }))
                            && slots_map(self.slots@.update(i as int, Slot { key: k, item: v }))
                            == slots_map(self.slots@).insert(k, v) by {
                        lemma_map_update(self.slots@, i as int, v);
                    }
                }
                Some(&mut self.slots[i].item)
            },
            None => None,
        }
    }

    /// Takes out the item stored under `k`, if any.
    pub fn remove(&mut self, k: TypeKey) -> (r: Option<E>)
        requires
            old(self).wf(),
        ensures
            final(self).wf(),
            final(self)@ == old(self)@.remove(k),
            match r {
                Some(x) => old(self)@.contains_key(k) && x == old(self)@[k],
                None => !old(self)@.contains_key(k),
            },
    {
        match self.position(k) {
            Some(i) => {
                proof {
                    lemma_map_at(self.slots@, i as int);
                    lemma_map_remove(self.slots@, i as int);
                }
                let s = self.slots.remove(i);
                Some(s.item)
            },
            None => {
                assert(self@.remove(k) =~= self@);
                None
            },
        }
    }
}

} // verus!
