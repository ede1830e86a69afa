//! A finite map keyed by strings, kept as two parallel vectors whose keys
//! never repeat. Its view is a `Map` from the key's characters to the value.
use vstd::prelude::*;

verus! {

/// String-keyed map.
pub struct StrMap<V> {
    keys: Vec<String>,
    vals: Vec<V>,
}


/// How many of the values satisfy `p`.
pub open spec fn count_where<V>(vals: Seq<V>, p: spec_fn(V) -> bool) -> nat
    decreases vals.len(),
{
    if vals.len() == 0 {
        0
    } else {
        count_where(vals.drop_last(), p) + if p(vals.last()) {
            1nat
        } else {
            0nat
        }
    }
}

/// The keys whose values satisfy `p`.
pub open spec fn keys_where<V>(m: Map<Seq<char>, V>, p: spec_fn(V) -> bool) -> Set<Seq<char>> {
    m.dom().filter(|k: Seq<char>| p(m[k]))
}

/// The keys at positions whose values satisfy `p`.
pub open spec fn paired_keys_where<V>(ks: Seq<Seq<char>>, vs: Seq<V>, p: spec_fn(V) -> bool) -> Set<
    Seq<char>,
> {
    Set::new(|k: Seq<char>| exists|i: int| 0 <= i < ks.len() && ks[i] == k && #[trigger] p(vs[i]))
}

/// Counting positions counts distinct keys.
pub proof fn lemma_paired_count<V>(ks: Seq<Seq<char>>, vs: Seq<V>, p: spec_fn(V) -> bool)
    requires
        ks.len() == vs.len(),
        ks.no_duplicates(),
    ensures
        paired_keys_where(ks, vs, p).finite(),
        paired_keys_where(ks, vs, p).len() == count_where(vs, p),
    decreases ks.len(),
{
    let s = paired_keys_where(ks, vs, p);
    if ks.len() == 0 {
        assert(s =~= Set::<Seq<char>>::empty());
    } else {
        let n = ks.len() - 1;
        let ks1 = ks.drop_last();
        let vs1 = vs.drop_last();
        assert(ks1.no_duplicates()) by {
            assert forall|a: int, b: int| 0 <= a < ks1.len() && 0 <= b < ks1.len() && a != b implies ks1[a]
                != ks1[b] by {
                assert(ks1[a] == ks[a] && ks1[b] == ks[b]);
            }
        }
        lemma_paired_count(ks1, vs1, p);
        let s1 = paired_keys_where(ks1, vs1, p);
        assert(!s1.contains(ks[n])) by {
            if s1.contains(ks[n]) {
                let i = choose|i: int| 0 <= i < ks1.len() && ks1[i] == ks[n] && #[trigger] p(vs1[i]);
                assert(ks[i] == ks[n]);
            }
        }
        if p(vs[n]) {
            assert(s =~= s1.insert(ks[n])) by {
                assert forall|k: Seq<char>| s.contains(k) implies #[trigger] s1.insert(ks[n]).contains(k) by {
                    let i = choose|i: int| 0 <= i < ks.len() && ks[i] == k && #[trigger] p(vs[i]);
                    if i < n {
                        assert(ks1[i] == k && vs1[i] == vs[i]);
                    }
                }
                assert forall|k: Seq<char>| #[trigger] s1.insert(ks[n]).contains(k) implies s.contains(k) by {
                    if k == ks[n] {
                        assert(0 <= n < ks.len() && ks[n] == k && p(vs[n]));
                    } else {
                        let i = choose|i: int| 0 <= i < ks1.len() && ks1[i] == k && #[trigger] p(vs1[i]);
                        assert(ks[i] == k && vs[i] == vs1[i]);
                    }
                }
            }
        } else {
            assert(s =~= s1) by {
                assert forall|k: Seq<char>| s.contains(k) implies #[trigger] s1.contains(k) by {
                    let i = choose|i: int| 0 <= i < ks.len() && ks[i] == k && #[trigger] p(vs[i]);
                    assert(i != n);
                    assert(ks1[i] == k && vs1[i] == vs[i]);
                }
                assert forall|k: Seq<char>| #[trigger] s1.contains(k) implies s.contains(k) by {
                    let i = choose|i: int| 0 <= i < ks1.len() && ks1[i] == k && #[trigger] p(vs1[i]);
                    assert(ks[i] == k && vs[i] == vs1[i]);
                }
            }
        }
    }
}

impl<V> StrMap<V> {
    /// Keys and values pair up and no key repeats.
    pub closed spec fn wf(&self) -> bool {
        &&& self.keys@.len() == self.vals@.len()
        &&& self.key_seq().no_duplicates()
    }

    /// The keys, in storage order.
    pub closed spec fn key_seq(&self) -> Seq<Seq<char>> {
        self.keys@.map_values(|k: String| k@)
    }

    /// The values, in storage order.
    pub closed spec fn val_seq(&self) -> Seq<V> {
        self.vals@
    }

    /// The map that the entries stand for.
    pub closed spec fn as_map(&self) -> Map<Seq<char>, V> {
        Map::new(
            |k: Seq<char>| self.key_seq().contains(k),
            |k: Seq<char>| self.vals@[self.key_seq().index_of(k)],
        )
    }

    /// The entry at storage position `i` belongs to the map.
    pub proof fn lemma_entry(&self, i: int)
        requires
            self.wf(),
            0 <= i < self.key_seq().len(),
        ensures
            self.key_seq().len() == self.val_seq().len(),
            self@.contains_key(self.key_seq()[i]),
            self@[self.key_seq()[i]] == self.val_seq()[i],
    {
        let k = self.key_seq()[i];
        assert(self.key_seq().contains(k));
        let j = self.key_seq().index_of(k);
        assert(self.key_seq()[j] == k);
    }

    /// Every key of the map sits at some storage position.
    pub proof fn lemma_key(&self, k: Seq<char>)
        requires
            self@.contains_key(k),
        ensures
            0 <= self.key_seq().index_of(k) < self.key_seq().len(),
            self.key_seq()[self.key_seq().index_of(k)] == k,
    {
    }

    /// Counting the stored values that satisfy `p` counts the keys whose
    /// values satisfy it.
    pub proof fn lemma_count_where(&self, p: spec_fn(V) -> bool)
        requires
            self.wf(),
        ensures
            keys_where(self@, p).finite(),
            keys_where(self@, p).len() == count_where(self.val_seq(), p),
    {
        let ks = self.key_seq();
        let vs = self.val_seq();
        lemma_paired_count(ks, vs, p);
        assert(keys_where(self@, p) =~= paired_keys_where(ks, vs, p)) by {
            assert forall|k: Seq<char>| #[trigger] keys_where(self@, p).contains(k) implies paired_keys_where(
                ks,
                vs,
                p,
            ).contains(k) by {
                let i = ks.index_of(k);
                assert(ks[i] == k && self@[k] == vs[i]);
                assert(p(vs[i]));
            }
            assert forall|k: Seq<char>| #[trigger] paired_keys_where(ks, vs, p).contains(k) implies keys_where(
                self@,
                p,
            ).contains(k) by {
                let i = choose|i: int| 0 <= i < ks.len() && ks[i] == k && #[trigger] p(vs[i]);
                self.lemma_entry(i);
            }
        }
    }

    /// Number of entries.
    pub proof fn lemma_len(&self)
        requires
            self.wf(),
        ensures
            self@.dom().finite(),
            self@.dom().len() == self.key_seq().len(),
            self.key_seq().len() == self.val_seq().len(),
            self@.dom() == self.key_seq().to_set(),
            self.key_seq().no_duplicates(),
    {
        assert(self@.dom() =~= self.key_seq().to_set());
        self.key_seq().unique_seq_to_set();
    }

    /// An empty map.
    pub fn new() -> (m: Self)
        ensures
            m.wf(),
            m@ == Map::<Seq<char>, V>::empty(),
            m.key_seq().len() == 0,
    {
        let m = StrMap { keys: Vec::new(), vals: Vec::new() };
        assert(m.key_seq() =~= Seq::<Seq<char>>::empty());
        assert(m@ =~= Map::<Seq<char>, V>::empty());
        m
    }

    /// Number of entries.
    pub fn len(&self) -> (n: usize)
        requires
            self.wf(),
        ensures
            n == self@.dom().len(),
            n == self.key_seq().len(),
    {
        proof {
                self.lemma_len();
        }
        self.keys.len()
    }

    /// Storage position of `k`.
    pub fn find(&self, k: &str) -> (r: Option<usize>)
        requires
            self.wf(),
        ensures
            match r {
                Some(i) => i < self.key_seq().len() && self.key_seq()[i as int] == k@
                    && self.key_seq().index_of(k@) == i,
                None => !self@.contains_key(k@),
            },
    {
        let mut i: usize = 0;
        while i < self.keys.len()
            invariant
                self.wf(),
                i <= self.keys@.len(),
                forall|j: int| 0 <= j < i ==> self.key_seq()[j] != k@,
            decreases self.keys@.len() - i,
        {
            if crate::text::str_eq(self.keys[i].as_str(), k) {
                proof {
                    assert(self.key_seq()[i as int] == k@);
                    let j = self.key_seq().index_of(k@);
                    assert(self.key_seq().contains(k@));
                    assert(self.key_seq()[j] == k@);
                }
                return Some(i);
            }
            i = i + 1;
        }
        None
    }

    /// `k` is a key.
    pub fn contains_key(&self, k: &str) -> (r: bool)
        requires
            self.wf(),
        ensures
            r == self@.contains_key(k@),
    {
        match self.find(k) {
            Some(i) => {
                proof {
                    self.lemma_entry(i as int);
                }
                true
            },
            None => false,
        }
    }

    /// The value at `k`.
    pub fn get(&self, k: &str) -> (r: Option<&V>)
        requires
            self.wf(),
        ensures
            match r {
                Some(v) => self@.contains_key(k@) && *v == self@[k@],
                None => !self@.contains_key(k@),
            },
    {
        match self.find(k) {
            Some(i) => {
                proof {
                                self.lemma_entry(i as int);
                }
                Some(&self.vals[i])
            },
            None => None,
        }
    }

    /// The key at storage position `i`.
    pub fn key_at(&self, i: usize) -> (k: &String)
        requires
            self.wf(),
            i < self.key_seq().len(),
        ensures
            k@ == self.key_seq()[i as int],
    {
        &self.keys[i]
    }

    /// The value at storage position `i`.
    pub fn value_at(&self, i: usize) -> (v: &V)
        requires
            self.wf(),
            i < self.key_seq().len(),
        ensures
            *v == self.val_seq()[i as int],
    {
        &self.vals[i]
    }

    /// The value at storage position `i`, to change in place; keys and
    /// order stay.
    pub fn value_mut_at(&mut self, i: usize) -> (v: &mut V)
        requires
            old(self).wf(),
            i < old(self).key_seq().len(),
        ensures
            *v == old(self).val_seq()[i as int],
            final(self).wf(),
            final(self).key_seq() == old(self).key_seq(),
            final(self).val_seq() == old(self).val_seq().update(i as int, *final(v)),
    {
        &mut self.vals[i]
    }

    /// A map with the same keys in the same order, whose value at one
    /// position changed, is the map with that key set to the new value.
    pub proof fn lemma_update_at(&self, other: &Self, i: int, x: V)
        requires
            self.wf(),
            0 <= i < self.key_seq().len(),
            other.key_seq() == self.key_seq(),
            other.val_seq() == self.val_seq().update(i, x),
        ensures
            other.wf(),
            other@ == self@.insert(self.key_seq()[i], x),
    {
        let k = self.key_seq()[i];
        assert forall|key: Seq<char>| #[trigger] other@.contains_key(key) implies other@[key] == self@.insert(
            k,
            x,
        )[key] by {
            let a = self.key_seq().index_of(key);
            if key == k {
                assert(self.key_seq()[i] == k);
                assert(a == i) by {
                    if a != i {
                        assert(self.key_seq()[a] == self.key_seq()[i]);
                    }
                }
            } else {
                assert(a != i);
            }
        }
        assert(other@ =~= self@.insert(k, x));
    }

    /// Takes the entry at `k` out of the map.
    pub fn remove(&mut self, k: &str) -> (r: Option<V>)
        requires
            old(self).wf(),
        ensures
            final(self).wf(),
            final(self)@ == old(self)@.remove(k@),
            match r {
                Some(v) => old(self)@.contains_key(k@) && v == old(self)@[k@],
                None => !old(self)@.contains_key(k@),
            },
            r is None ==> final(self).key_seq() == old(self).key_seq(),
            r is None ==> final(self).val_seq() == old(self).val_seq(),
    {
        match self.find(k) {
            None => {
                assert(self@.remove(k@) =~= self@);
                None
            },
            Some(i) => {
                proof {
                    self.lemma_entry(i as int);
                }
                let ghost old_keys = self.key_seq();
                let ghost old_view = self@;
                let mut taken = StrMap { keys: Vec::new(), vals: Vec::new() };
                std::mem::swap(&mut taken, self);
                let StrMap { mut keys, mut vals } = taken;
                keys.remove(i);
                let v = vals.remove(i);
                let ghost new_keys = keys@.map_values(|s: String| s@);
                assert(new_keys =~= old_keys.remove(i as int));
                assert(new_keys.no_duplicates()) by {
                    assert forall|a: int, b: int|
                        0 <= a < new_keys.len() && 0 <= b < new_keys.len() && a != b implies new_keys[a]
                        != new_keys[b] by {
                        let a2 = if a < i { a } else { a + 1 };
                        let b2 = if b < i { b } else { b + 1 };
                        assert(new_keys[a] == old_keys[a2]);
                        assert(new_keys[b] == old_keys[b2]);
                    }
                }
                *self = StrMap { keys, vals };
                proof {
                    assert forall|key: Seq<char>| #[trigger] self@.contains_key(key) == old_view.remove(
                        k@,
                    ).contains_key(key) by {
                        if new_keys.contains(key) {
                            let a = choose|a: int| 0 <= a < new_keys.len() && new_keys[a] == key;
                            let a2 = if a < i { a } else { a + 1 };
                            assert(old_keys[a2] == key);
                            assert(old_keys.contains(key));
                            assert(a2 != i);
                        }
                        if old_keys.contains(key) && key != k@ {
                            let a2 = choose|a: int| 0 <= a < old_keys.len() && old_keys[a] == key;
                            assert(a2 != i);
                            let a = if a2 < i { a2 } else { a2 - 1 };
                            assert(new_keys[a] == key);
                        }
                    }
                    assert forall|key: Seq<char>| #[trigger] self@.contains_key(key) implies self@[key]
                        == old_view[key] by {
                        let a = new_keys.index_of(key);
                        assert(new_keys[a] == key);
                        let a2 = if a < i { a } else { a + 1 };
                        assert(old_keys[a2] == key);
                        assert(old_keys.contains(key));
                        let b = old_keys.index_of(key);
                        assert(old_keys[b] == key);
                        assert(b == a2);
                    }
                    assert(self@ =~= old_view.remove(k@));
                }
                Some(v)
            },
        }
    }

    /// Sets the value at `k`.
    pub fn insert(&mut self, k: String, v: V)
        requires
            old(self).wf(),
        ensures
            final(self).wf(),
            final(self)@ == old(self)@.insert(k@, v),
            !old(self)@.contains_key(k@) ==> final(self).key_seq() == old(self).key_seq().push(k@),
            !old(self)@.contains_key(k@) ==> final(self).val_seq() == old(self).val_seq().push(v),
    {
        let ghost old_view = self@;
        let ghost old_keys = self.key_seq();
        let _ = self.remove(k.as_str());
        let ghost mid_view = self@;
        let ghost mid_keys = self.key_seq();
        let ghost mid_vals = self.val_seq();
        let mut taken = StrMap { keys: Vec::new(), vals: Vec::new() };
                std::mem::swap(&mut taken, self);
        let StrMap { mut keys, mut vals } = taken;
        let ghost kv = k@;
        keys.push(k);
        let ghost gv = v;
        vals.push(v);
        assert(vals@ =~= mid_vals.push(gv));
        let ghost new_keys = keys@.map_values(|s: String| s@);
        assert(new_keys =~= mid_keys.push(kv));
        assert(!mid_view.contains_key(kv));
        assert(!mid_keys.contains(kv));
        assert(new_keys.no_duplicates()) by {
            assert forall|a: int, b: int|
                0 <= a < new_keys.len() && 0 <= b < new_keys.len() && a != b implies new_keys[a]
                != new_keys[b] by {
                if a == mid_keys.len() {
                    assert(new_keys[b] == mid_keys[b]);
                } else if b == mid_keys.len() {
                    assert(new_keys[a] == mid_keys[a]);
                } else {
                    assert(new_keys[a] == mid_keys[a]);
                    assert(new_keys[b] == mid_keys[b]);
                }
            }
        }
        *self = StrMap { keys, vals };
        proof {
            let n = mid_keys.len() as int;
            assert(new_keys[n] == kv);
            assert forall|key: Seq<char>| #[trigger] self@.contains_key(key) == old_view.insert(
                kv,
                v,
            ).contains_key(key) by {
                if key == kv {
                    assert(new_keys.contains(key));
                } else {
                    assert(mid_view.contains_key(key) == mid_keys.contains(key));
                    assert(old_view.contains_key(key) == mid_view.contains_key(key));
                    if mid_keys.contains(key) {
                        let a = choose|a: int| 0 <= a < mid_keys.len() && mid_keys[a] == key;
                        assert(new_keys[a] == key);
                    }
                    if new_keys.contains(key) {
                        let a = choose|a: int| 0 <= a < new_keys.len() && new_keys[a] == key;
                        assert(a != n);
                        assert(mid_keys[a] == key);
                        assert(mid_keys.contains(key));
                    }
                }
            }
            assert forall|key: Seq<char>| #[trigger] self@.contains_key(key) implies self@[key]
                == old_view.insert(kv, v)[key] by {
                let a = new_keys.index_of(key);
                assert(new_keys[a] == key);
                if key == kv {
                    assert(a == n);
                } else {
                    assert(a != n);
                    assert(mid_keys[a] == key);
                    assert(mid_keys.contains(key));
                    let b = mid_keys.index_of(key);
                    assert(mid_keys[b] == key);
                    assert(b == a);
                    assert(mid_view[key] == old_view[key]);
                }
            }
            assert(self@ =~= old_view.insert(kv, v));
        }
    }
}

impl<V> View for StrMap<V> {
    type V = Map<Seq<char>, V>;

    closed spec fn view(&self) -> Map<Seq<char>, V> {
        self.as_map()
    }
}

} // verus!
