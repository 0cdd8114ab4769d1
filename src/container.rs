use vstd::prelude::*;

verus! {

/// Opaque, totally ordered handle naming one simulation object.
pub type EntityId = u64;

/// Entity ids of `s` are strictly ascending (so each id occurs at most once).
pub open spec fn ids_ascending<T>(s: Seq<(EntityId, T)>) -> bool {
    forall|i: int, j: int| 0 <= i < j < s.len() ==> s[i].0 < s[j].0
}

/// A sequence of entity ids is strictly ascending.
pub open spec fn strictly_ascending(s: Seq<EntityId>) -> bool {
    forall|i: int, j: int| 0 <= i < j < s.len() ==> s[i] < s[j]
}

/// Some entry of `s` belongs to entity `e`.
pub open spec fn seq_has<T>(s: Seq<(EntityId, T)>, e: EntityId) -> bool {
    exists|i: int| 0 <= i < s.len() && s[i].0 == e
}

/// The position of the entry of entity `e` in `s` (meaningful when `seq_has(s, e)`).
pub open spec fn seq_index<T>(s: Seq<(EntityId, T)>, e: EntityId) -> int {
    choose|i: int| 0 <= i < s.len() && s[i].0 == e
}

/// In an ascending sequence the entry of an entity is found at its unique position.
pub proof fn lemma_index_unique<T>(s: Seq<(EntityId, T)>, i: int)
    requires
        ids_ascending(s),
        0 <= i < s.len(),
    ensures
        seq_has(s, s[i].0),
        seq_index(s, s[i].0) == i,
{
    let e = s[i].0;
    assert(0 <= i < s.len() && s[i].0 == e);
    let j = seq_index(s, e);
    if j < i {
        assert(s[j].0 < s[i].0);
    } else if i < j {
        assert(s[i].0 < s[j].0);
    }
}

/// Sparse storage of one component type, keyed by entity and kept in ascending
/// order of entity id, with at most one component per entity.
pub struct CContainer<T> {
    entries: Vec<(EntityId, T)>,
}

impl<T> View for CContainer<T> {
    type V = Seq<(EntityId, T)>;

    closed spec fn view(&self) -> Seq<(EntityId, T)> {
        self.entries@
    }
}

impl<T> CContainer<T> {
    #[verifier::type_invariant]
    spec fn inv(self) -> bool {
        ids_ascending(self.entries@)
    }

    /// Entity `e` has a component here.
    pub open spec fn has(&self, e: EntityId) -> bool {
        seq_has(self@, e)
    }

    /// The component of entity `e` (meaningful when `self.has(e)`).
    pub open spec fn item(&self, e: EntityId) -> T {
        self@[seq_index(self@, e)].1
    }

    /// The container read as a map from entity to component.
    pub open spec fn as_map(&self) -> Map<EntityId, T> {
        Map::new(|e: EntityId| self.has(e), |e: EntityId| self.item(e))
    }

    pub fn new() -> (r: Self)
        ensures
            r@ == Seq::<(EntityId, T)>::empty(),
    {
        CContainer { entries: Vec::new() }
    }

    pub fn len(&self) -> (r: usize)
        ensures
            r == self@.len(),
    {
        self.entries.len()
    }

    pub fn entity_at(&self, i: usize) -> (r: EntityId)
        requires
            i < self@.len(),
        ensures
            r == self@[i as int].0,
    {
        self.entries[i].0
    }

    pub fn item_at(&self, i: usize) -> (r: &T)
        requires
            i < self@.len(),
        ensures
            *r == self@[i as int].1,
    {
        &self.entries[i].1
    }

    /// Replaces the component at position `i`, keeping its entity.
    pub fn set_at(&mut self, i: usize, value: T)
        requires
            i < old(self)@.len(),
        ensures
            final(self)@ == old(self)@.update(i as int, (old(self)@[i as int].0, value)),
    {
        proof {
            use_type_invariant(&*self);
        }
        let e = self.entries[i].0;
        let mut entries = Vec::new();
        std::mem::swap(&mut self.entries, &mut entries);
        entries.set(i, (e, value));
        proof {
            assert forall|a: int, b: int| 0 <= a < b < entries@.len() implies entries@[a].0
                < entries@[b].0 by {
                assert(entries@[a].0 == old(self)@[a].0);
                assert(entries@[b].0 == old(self)@[b].0);
            }
        }
        self.entries = entries;
    }

    /// The position of entity `e`, if it has a component here.
    pub fn find(&self, e: EntityId) -> (r: Option<usize>)
        ensures
            r.is_some() == self.has(e),
            r.is_some() ==> r.unwrap() < self@.len() && seq_index(self@, e) == r.unwrap(),
    {
        proof {
            use_type_invariant(self);
        }
        let n = self.entries.len();
        let mut i: usize = 0;
        while i < n
            invariant
                n == self@.len(),
                i <= n,
                ids_ascending(self@),
                forall|j: int| 0 <= j < i ==> self@[j].0 != e,
            decreases n - i,
        {
            if self.entries[i].0 == e {
                proof {
                    lemma_index_unique(self@, i as int);
                }
                return Some(i);
            }
            i = i + 1;
        }
        None
    }

    pub fn contains(&self, e: EntityId) -> (r: bool)
        ensures
            r == self.has(e),
    {
        self.find(e).is_some()
    }

    pub fn get(&self, e: EntityId) -> (r: Option<&T>)
        ensures
            r.is_some() == self.has(e),
            r.is_some() ==> *r.unwrap() == self.item(e),
    {
        match self.find(e) {
            Some(i) => Some(&self.entries[i].1),
            None => None,
        }
    }
    /// Attaches `value` to entity `e`, replacing the component it had, and returns
    /// the replaced one.
    pub fn insert(&mut self, e: EntityId, value: T) -> (r: Option<T>)
        ensures
            final(self).as_map() == old(self).as_map().insert(e, value),
            r.is_some() == old(self).has(e),
            r.is_some() ==> r.unwrap() == old(self).item(e),
    {
        proof {
            use_type_invariant(&*self);
        }
        let n = self.entries.len();
        let mut i: usize = 0;
        while i < n && self.entries[i].0 < e
            invariant
                n == self@.len(),
                i <= n,
                ids_ascending(self@),
                forall|j: int| 0 <= j < i ==> self@[j].0 < e,
            decreases n - i,
        {
            i = i + 1;
        }
        let ghost s = self@;
        let mut entries = Vec::new();
        std::mem::swap(&mut self.entries, &mut entries);
        if i < n && entries[i].0 == e {
            let (_, prev) = entries.remove(i);
            entries.insert(i, (e, value));
            proof {
                lemma_index_unique(s, i as int);
                let t = entries@;
                assert(t =~= s.update(i as int, (e, value)));
                assert(ids_ascending(t)) by {
                    assert forall|a: int, b: int| 0 <= a < b < t.len() implies t[a].0 < t[b].0 by {
                        assert(s[a].0 < s[b].0);
                    }
                }
                assert forall|k: EntityId| #[trigger] seq_has(t, k) == seq_has(s, k) by {
                    if seq_has(t, k) {
                        let j = seq_index(t, k);
                        assert(s[j].0 == k);
                    }
                    if seq_has(s, k) {
                        let j = seq_index(s, k);
                        assert(t[j].0 == k);
                    }
                }
                assert forall|k: EntityId| seq_has(t, k) implies #[trigger] t[seq_index(t, k)].1 == (
                if k == e {
                    value
                } else {
                    s[seq_index(s, k)].1
                }) by {
                    let j = seq_index(s, k);
                    lemma_index_unique(s, j);
                    assert(t[j].0 == k);
                    lemma_index_unique(t, j);
                }
            }
            self.entries = entries;
            proof {
                assert(self.as_map() =~= old(self).as_map().insert(e, value));
            }
            Some(prev)
        } else {
            entries.insert(i, (e, value));
            proof {
                let t = entries@;
                assert(t =~= s.insert(i as int, (e, value)));
                assert forall|j: int| i <= j < s.len() implies s[j].0 > e by {
                    if i < n {
                        assert(s[i as int].0 > e);
                        if j > i {
                            assert(s[i as int].0 < s[j].0);
                        }
                    }
                }
                assert(ids_ascending(t)) by {
                    assert forall|a: int, b: int| 0 <= a < b < t.len() implies t[a].0 < t[b].0 by {
                        if b < i {
                            assert(s[a].0 < s[b].0);
                        } else if a > i {
                            assert(s[a - 1].0 < s[b - 1].0);
                        } else if a < i && b > i {
                            assert(s[b - 1].0 > e);
                        }
                    }
                }
                assert(!seq_has(s, e)) by {
                    if seq_has(s, e) {
                        let j = seq_index(s, e);
                        assert(s[j].0 == e);
                    }
                }
                assert forall|k: EntityId| #[trigger] seq_has(t, k) == (seq_has(s, k) || k == e) by {
                    if seq_has(t, k) {
                        let j = seq_index(t, k);
                        if j < i {
                            assert(s[j].0 == k);
                        } else if j > i {
                            assert(s[j - 1].0 == k);
                        }
                    }
                    if seq_has(s, k) {
                        let j = seq_index(s, k);
                        if j < i {
                            assert(t[j].0 == k);
                        } else {
                            assert(t[j + 1].0 == k);
                        }
                    }
                    if k == e {
                        assert(t[i as int].0 == k);
                    }
                }
                assert forall|k: EntityId| seq_has(t, k) implies #[trigger] t[seq_index(t, k)].1 == (
                if k == e {
                    value
                } else {
                    s[seq_index(s, k)].1
                }) by {
                    if k == e {
                        lemma_index_unique(t, i as int);
                    } else {
                        let j = seq_index(s, k);
                        lemma_index_unique(s, j);
                        if j < i {
                            assert(t[j].0 == k);
                            lemma_index_unique(t, j);
                        } else {
                            assert(t[j + 1].0 == k);
                            lemma_index_unique(t, j + 1);
                        }
                    }
                }
            }
            self.entries = entries;
            proof {
                assert(self.as_map() =~= old(self).as_map().insert(e, value));
            }
            None
        }
    }

    /// Detaches the component of entity `e`, if any, and returns it.
    pub fn remove(&mut self, e: EntityId) -> (r: Option<T>)
        ensures
            final(self).as_map() == old(self).as_map().remove(e),
            r.is_some() == old(self).has(e),
            r.is_some() ==> r.unwrap() == old(self).item(e),
    {
        proof {
            use_type_invariant(&*self);
        }
        match self.find(e) {
            None => {
                proof {
                    assert(self.as_map() =~= old(self).as_map().remove(e));
                }
                None
            },
            Some(i) => {
                let ghost s = self@;
                let mut entries = Vec::new();
                std::mem::swap(&mut self.entries, &mut entries);
                let (_, v) = entries.remove(i);
                proof {
                    let t = entries@;
                    assert(t =~= s.remove(i as int));
                    assert(ids_ascending(t)) by {
                        assert forall|a: int, b: int| 0 <= a < b < t.len() implies t[a].0 < t[b].0 by {
                            if b < i {
                                assert(s[a].0 < s[b].0);
                            } else if a >= i {
                                assert(s[a + 1].0 < s[b + 1].0);
                            } else {
                                assert(s[a].0 < s[b + 1].0);
                            }
                        }
                    }
                    assert forall|k: EntityId| #[trigger] seq_has(t, k) == (seq_has(s, k) && k != e) by {
                        if seq_has(t, k) {
                            let j = seq_index(t, k);
                            if j < i {
                                assert(s[j].0 == k);
                                assert(s[j].0 < s[i as int].0);
                            } else {
                                assert(s[j + 1].0 == k);
                                assert(s[i as int].0 < s[j + 1].0);
                            }
                        }
                        if seq_has(s, k) && k != e {
                            let j = seq_index(s, k);
                            if j < i {
                                assert(t[j].0 == k);
                            } else {
                                assert(j != i);
                                assert(t[j - 1].0 == k);
                            }
                        }
                    }
                    assert forall|k: EntityId| seq_has(t, k) implies #[trigger] t[seq_index(t, k)].1
                        == s[seq_index(s, k)].1 by {
                        let j = seq_index(s, k);
                        lemma_index_unique(s, j);
                        if j < i {
                            assert(t[j].0 == k);
                            lemma_index_unique(t, j);
                        } else {
                            assert(j != i);
                            assert(t[j - 1].0 == k);
                            lemma_index_unique(t, j - 1);
                        }
                    }
                }
                self.entries = entries;
                proof {
                    assert(self.as_map() =~= old(self).as_map().remove(e));
                }
                Some(v)
            },
        }
    }

    /// The entities present both here and in `other`, in ascending order: the
    /// inner join of the two containers by entity.
    pub fn zip_entity<U>(&self, other: &CContainer<U>) -> (r: Vec<EntityId>)
        ensures
            strictly_ascending(r@),
            forall|e: EntityId| r@.contains(e) <==> self.has(e) && other.has(e),
    {
        proof {
            use_type_invariant(self);
        }
        let n = self.entries.len();
        let mut r: Vec<EntityId> = Vec::new();
        let mut i: usize = 0;
        while i < n
            invariant
                n == self@.len(),
                i <= n,
                ids_ascending(self@),
                strictly_ascending(r@),
                forall|k: int| 0 <= k < r@.len() ==> exists|j: int| 0 <= j < i && self@[j].0 == #[trigger] r@[k],
                forall|e: EntityId| r@.contains(e) <==> (exists|j: int| 0 <= j < i && self@[j].0 == e) && other.has(e),
            decreases n - i,
        {
            let e = self.entries[i].0;
            let ghost r0 = r@;
            if other.contains(e) {
                r.push(e);
                proof {
                    assert forall|a: int, b: int| 0 <= a < b < r@.len() implies r@[a] < r@[b] by {
                        if b == r0.len() {
                            let j = choose|j: int| 0 <= j < i && self@[j].0 == r0[a];
                            assert(self@[j].0 < self@[i as int].0);
                        } else {
                            assert(r0[a] < r0[b]);
                        }
                    }
                    assert forall|k: int| 0 <= k < r@.len() implies exists|j: int| 0 <= j < i + 1 && self@[j].0 == #[trigger] r@[k] by {
                        if k < r0.len() {
                            assert(r@[k] == r0[k]);
                        } else {
                            assert(self@[i as int].0 == r@[k]);
                        }
                    }
                }
            }
            proof {
                assert forall|x: EntityId| r@.contains(x) <==> (exists|j: int| 0 <= j < i + 1 && self@[j].0 == x) && other.has(x) by {
                    if r@.contains(x) {
                        let k = choose|k: int| 0 <= k < r@.len() && r@[k] == x;
                        if k < r0.len() {
                            assert(r0.contains(x));
                        }
                    }
                    if (exists|j: int| 0 <= j < i + 1 && self@[j].0 == x) && other.has(x) {
                        let j = choose|j: int| 0 <= j < i + 1 && self@[j].0 == x;
                        if j < i {
                            assert(r0.contains(x));
                            let k = choose|k: int| 0 <= k < r0.len() && r0[k] == x;
                            assert(r@[k] == x);
                        } else {
                            assert(r@[r@.len() - 1] == x);
                        }
                    }
                }
            }
            i = i + 1;
        }
        r
    }

    /// The entities present here, in `a` and in `b`, in ascending order.
    pub fn zip_entity2<U, W>(&self, a: &CContainer<U>, b: &CContainer<W>) -> (r: Vec<EntityId>)
        ensures
            strictly_ascending(r@),
            forall|e: EntityId| r@.contains(e) <==> self.has(e) && a.has(e) && b.has(e),
    {
        let first = self.zip_entity(a);
        let n = first.len();
        let mut r: Vec<EntityId> = Vec::new();
        let mut i: usize = 0;
        while i < n
            invariant
                n == first@.len(),
                i <= n,
                strictly_ascending(first@),
                strictly_ascending(r@),
                forall|k: int| 0 <= k < r@.len() ==> exists|j: int| 0 <= j < i && first@[j] == #[trigger] r@[k],
                forall|e: EntityId| r@.contains(e) <==> (exists|j: int| 0 <= j < i && first@[j] == e) && b.has(e),
            decreases n - i,
        {
            let e = first[i];
            let ghost r0 = r@;
            if b.contains(e) {
                r.push(e);
                proof {
                    assert forall|x: int, y: int| 0 <= x < y < r@.len() implies r@[x] < r@[y] by {
                        if y == r0.len() {
                            let j = choose|j: int| 0 <= j < i && first@[j] == r0[x];
                            assert(first@[j] < first@[i as int]);
                        } else {
                            assert(r0[x] < r0[y]);
                        }
                    }
                    assert forall|k: int| 0 <= k < r@.len() implies exists|j: int| 0 <= j < i + 1 && first@[j] == #[trigger] r@[k] by {
                        if k < r0.len() {
                            assert(r@[k] == r0[k]);
                        } else {
                            assert(first@[i as int] == r@[k]);
                        }
                    }
                }
            }
            proof {
                assert forall|x: EntityId| r@.contains(x) <==> (exists|j: int| 0 <= j < i + 1 && first@[j] == x) && b.has(x) by {
                    if r@.contains(x) {
                        let k = choose|k: int| 0 <= k < r@.len() && r@[k] == x;
                        if k < r0.len() {
                            assert(r0.contains(x));
                        }
                    }
                    if (exists|j: int| 0 <= j < i + 1 && first@[j] == x) && b.has(x) {
                        let j = choose|j: int| 0 <= j < i + 1 && first@[j] == x;
                        if j < i {
                            assert(r0.contains(x));
                            let k = choose|k: int| 0 <= k < r0.len() && r0[k] == x;
                            assert(r@[k] == x);
                        } else {
                            assert(r@[r@.len() - 1] == x);
                        }
                    }
                }
            }
            i = i + 1;
        }
        proof {
            assert forall|x: EntityId| r@.contains(x) <==> self.has(x) && a.has(x) && b.has(x) by {
                if self.has(x) && a.has(x) {
                    assert(first@.contains(x));
                }
            }
        }
        r
    }
}

} // verus!
