use vstd::prelude::*;

verus! {

/// A key usable in an association table: it has a mathematical abstraction,
/// and an executable equality that decides equality of abstractions.
pub trait TableKey: Sized {
    /// The mathematical value a key stands for.
    type Abs;

    /// The abstraction of this key.
    spec fn abs(&self) -> Self::Abs;

    /// Decide whether two keys stand for the same abstraction.
    fn key_eq(&self, other: &Self) -> (r: bool)
        ensures
            r == (self.abs() == other.abs()),
    ;
}

impl TableKey for usize {
    type Abs = int;

    open spec fn abs(&self) -> int {
        *self as int
    }

    fn key_eq(&self, other: &Self) -> (r: bool) {
        *self == *other
    }
}

impl TableKey for String {
    type Abs = Seq<char>;

    open spec fn abs(&self) -> Seq<char> {
        self@
    }

    fn key_eq(&self, other: &Self) -> (r: bool) {
        *self == *other
    }
}

/// A map from keys to values, kept as a vector of entries whose key
/// abstractions are pairwise distinct.
#[derive(Debug)]
pub struct AList<K, V> {
    entries: Vec<(K, V)>,
}

impl<K, V> View for AList<K, V> {
    type V = Seq<(K, V)>;

    closed spec fn view(&self) -> Seq<(K, V)> {
        self.entries@
    }
}

impl<K: TableKey, V> AList<K, V> {
    /// No two entries share one key abstraction.
    pub open spec fn dup_free(&self) -> bool {
        forall|i: int, j: int|
            0 <= i < j < self@.len() ==> (#[trigger] self@[i].0.abs()) != (
            #[trigger] self@[j].0.abs())
    }

    /// Some entry carries the key abstraction `a`.
    pub open spec fn has_key(&self, a: K::Abs) -> bool {
        exists|i: int| 0 <= i < self@.len() && (#[trigger] self@[i].0.abs()) == a
    }

    /// The index of the entry carrying `a` (meaningful when `has_key(a)`).
    pub open spec fn idx_of(&self, a: K::Abs) -> int {
        choose|i: int| 0 <= i < self@.len() && (#[trigger] self@[i].0.abs()) == a
    }

    /// The value stored under `a` (meaningful when `has_key(a)`).
    pub open spec fn val_of(&self, a: K::Abs) -> V {
        self@[self.idx_of(a)].1
    }

    /// In a duplicate-free table the entry index of any stored key is unique.
    pub proof fn lemma_val_at(&self, i: int)
        requires
            self.dup_free(),
            0 <= i < self@.len(),
        ensures
            self.has_key(self@[i].0.abs()),
            self.idx_of(self@[i].0.abs()) == i,
            self.val_of(self@[i].0.abs()) == self@[i].1,
    {
        let a = self@[i].0.abs();
        assert(self.has_key(a));
        let j = self.idx_of(a);
        assert(0 <= j < self@.len() && self@[j].0.abs() == a);
        if i < j {
            assert(self@[i].0.abs() != self@[j].0.abs());
        } else if j < i {
            assert(self@[j].0.abs() != self@[i].0.abs());
        }
    }

    /// The empty table.
    pub fn new() -> (r: Self)
        ensures
            r@ =~= Seq::<(K, V)>::empty(),
            r.dup_free(),
    {
        AList { entries: Vec::new() }
    }

    /// The number of entries.
    pub fn len(&self) -> (r: usize)
        ensures
            r == self@.len(),
    {
        self.entries.len()
    }

    /// Read the entry at position `i`.
    pub fn entry_at(&self, i: usize) -> (r: &(K, V))
        requires
            i < self@.len(),
        ensures
            *r == self@[i as int],
    {
        &self.entries[i]
    }

    /// The position of the entry carrying the same abstraction as `k`, if any.
    fn find(&self, k: &K) -> (r: Option<usize>)
        ensures
            match r {
                Some(i) => 0 <= i < self@.len() && self@[i as int].0.abs() == k.abs(),
                None => !self.has_key(k.abs()),
            },
    {
        let mut i: usize = 0;
        while i < self.entries.len()
            invariant
                0 <= i <= self@.len(),
                forall|j: int| 0 <= j < i ==> (#[trigger] self@[j].0.abs()) != k.abs(),
            decreases self@.len() - i,
        {
            if self.entries[i].0.key_eq(k) {
                return Some(i);
            }
            i = i + 1;
        }
        None
    }

    /// Whether a value is stored under the abstraction of `k`.
    pub fn contains_key(&self, k: &K) -> (r: bool)
        ensures
            r == self.has_key(k.abs()),
    {
        match self.find(k) {
            Some(_) => true,
            None => false,
        }
    }

    /// Read the value stored under the abstraction of `k`.
    pub fn get(&self, k: &K) -> (r: Option<&V>)
        requires
            self.dup_free(),
        ensures
            match r {
                Some(v) => self.has_key(k.abs()) && *v == self.val_of(k.abs()),
                None => !self.has_key(k.abs()),
            },
    {
        match self.find(k) {
            Some(i) => {
                proof {
                    self.lemma_val_at(i as int);
                }
                Some(&self.entries[i].1)
            },
            None => None,
        }
    }

    /// Store `v` under `k`, replacing any value stored there before.
    pub fn insert(&mut self, k: K, v: V)
        requires
            old(self).dup_free(),
        ensures
            final(self).dup_free(),
            final(self).has_key(k.abs()),
            final(self).val_of(k.abs()) == v,
            forall|b: K::Abs|
                b != k.abs() ==> (#[trigger] final(self).has_key(b)) == old(self).has_key(b),
            forall|b: K::Abs|
                b != k.abs() && old(self).has_key(b) ==> (#[trigger] final(self).val_of(b)) == old(
                    self,
                ).val_of(b),
            final(self)@.len() == old(self)@.len() + (if old(self).has_key(k.abs()) {
                0int
            } else {
                1int
            }),
    {
        let ghost a = k.abs();
        match self.find(&k) {
            Some(i) => {
                self.entries[i].1 = v;
                proof {
                    assert(forall|j: int|
                        0 <= j < self@.len() && j != i ==> self@[j] == old(self)@[j]);
                    assert(self@[i as int].0 == old(self)@[i as int].0);
                    assert(self.dup_free());
                    self.lemma_val_at(i as int);
                    assert forall|b: K::Abs| b != a implies (#[trigger] self.has_key(b)) == old(
                        self,
                    ).has_key(b) by {
                        if old(self).has_key(b) {
                            let w = old(self).idx_of(b);
                            assert(self@[w].0.abs() == b);
                        }
                        if self.has_key(b) {
                            let w = self.idx_of(b);
                            assert(old(self)@[w].0.abs() == b);
                        }
                    }
                    assert forall|b: K::Abs| b != a && old(self).has_key(b) implies (
                    #[trigger] self.val_of(b)) == old(self).val_of(b) by {
                        let w = old(self).idx_of(b);
                        assert(old(self)@[w].0.abs() == b);
                        assert(w != i);
                        assert(self@[w].0.abs() == b && self@[w].1 == old(self)@[w].1);
                        self.lemma_val_at(w);
                        old(self).lemma_val_at(w);
                    }
                }
            },
            None => {
                self.entries.push((k, v));
                proof {
                    assert(self@ == old(self)@.push((k, v)));
                    assert(self@[self@.len() - 1].0.abs() == a);
                    assert(forall|j: int| 0 <= j < old(self)@.len() ==> self@[j] == old(self)@[j]);
                    assert forall|i: int, j: int| 0 <= i < j < self@.len() implies (
                    #[trigger] self@[i].0.abs()) != (#[trigger] self@[j].0.abs()) by {
                        if j < self@.len() - 1 {
                            assert(old(self)@[i].0.abs() != old(self)@[j].0.abs());
                        } else {
                            assert(self@[j].0.abs() == a);
                            assert(old(self)@[i].0.abs() != a) by {
                                if old(self)@[i].0.abs() == a {
                                    assert(old(self).has_key(a));
                                }
                            }
                        }
                    }
                    self.lemma_val_at(self@.len() - 1);
                    assert forall|b: K::Abs| b != a implies (#[trigger] self.has_key(b)) == old(
                        self,
                    ).has_key(b) by {
                        if old(self).has_key(b) {
                            let w = old(self).idx_of(b);
                            assert(self@[w].0.abs() == b);
                        }
                        if self.has_key(b) {
                            let w = self.idx_of(b);
                            assert(w < self@.len() - 1);
                            assert(old(self)@[w].0.abs() == b);
                        }
                    }
                    assert forall|b: K::Abs| b != a && old(self).has_key(b) implies (
                    #[trigger] self.val_of(b)) == old(self).val_of(b) by {
                        let w = old(self).idx_of(b);
                        assert(old(self)@[w].0.abs() == b);
                        assert(self@[w].0.abs() == b && self@[w].1 == old(self)@[w].1);
                        self.lemma_val_at(w);
                        old(self).lemma_val_at(w);
                    }
                }
            },
        }
    }

    /// Take the value stored under the abstraction of `k` out of the table.
    pub fn remove(&mut self, k: &K) -> (r: Option<V>)
        requires
            old(self).dup_free(),
        ensures
            final(self).dup_free(),
            !final(self).has_key(k.abs()),
            old(self).has_key(k.abs()) ==> (r matches Some(v) && v == old(self).val_of(k.abs())
                && final(self)@.len() == old(self)@.len() - 1),
            !old(self).has_key(k.abs()) ==> r is None && final(self)@ == old(self)@,
            forall|b: K::Abs|
                b != k.abs() ==> (#[trigger] final(self).has_key(b)) == old(self).has_key(b),
            forall|b: K::Abs|
                b != k.abs() && old(self).has_key(b) ==> (#[trigger] final(self).val_of(b)) == old(
                    self,
                ).val_of(b),
    {
        let ghost a = k.abs();
        match self.find(k) {
            Some(i) => {
                let e = self.entries.remove(i);
                proof {
                    old(self).lemma_val_at(i as int);
                    assert(self@ == old(self)@.remove(i as int));
                    assert(forall|j: int| 0 <= j < i ==> self@[j] == old(self)@[j]);
                    assert(forall|j: int|
                        i <= j < self@.len() ==> self@[j] == old(self)@[j + 1]);
                    assert forall|p: int, q: int| 0 <= p < q < self@.len() implies (
                    #[trigger] self@[p].0.abs()) != (#[trigger] self@[q].0.abs()) by {
                        let p0 = if p < i { p } else { p + 1 };
                        let q0 = if q < i { q } else { q + 1 };
                        assert(old(self)@[p0].0.abs() != old(self)@[q0].0.abs());
                    }
                    assert forall|b: K::Abs| self.has_key(b) implies b != a && old(
                        self,
                    ).has_key(b) by {
                        let w = self.idx_of(b);
                        let w0 = if w < i { w } else { w + 1 };
                        assert(old(self)@[w0].0.abs() == b);
                        assert(w0 != i);
                    }
                    assert forall|b: K::Abs| b != a && old(self).has_key(b) implies
                        #[trigger] self.has_key(b) by {
                        let w = old(self).idx_of(b);
                        assert(old(self)@[w].0.abs() == b);
                        assert(w != i);
                        let w1 = if w < i { w } else { w - 1 };
                        assert(self@[w1].0.abs() == b);
                    }
                    assert forall|b: K::Abs| b != a && old(self).has_key(b) implies (
                    #[trigger] self.val_of(b)) == old(self).val_of(b) by {
                        let w = old(self).idx_of(b);
                        assert(old(self)@[w].0.abs() == b);
                        assert(w != i);
                        let w1 = if w < i { w } else { w - 1 };
                        assert(self@[w1].0.abs() == b && self@[w1].1 == old(self)@[w].1);
                        self.lemma_val_at(w1);
                        old(self).lemma_val_at(w);
                    }
                }
                Some(e.1)
            },
            None => None,
        }
    }
}

} // verus!
