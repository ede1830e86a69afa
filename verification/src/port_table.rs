//! The ports that users hold for the current block, one entry per port.
use vstd::prelude::*;
use crate::port_market::UserPort;

verus! {

/// Active ports, no port twice.
pub struct PortTable {
    entries: Vec<UserPort>,
}

/// The port numbers of the entries, in storage order.
pub open spec fn port_numbers(s: Seq<UserPort>) -> Seq<u16> {
    s.map_values(|p: UserPort| p.port)
}

impl PortTable {
    /// No port repeats.
    pub closed spec fn wf(&self) -> bool {
        port_numbers(self.entries@).no_duplicates()
    }

    /// The entries in storage order.
    pub closed spec fn entry_seq(&self) -> Seq<UserPort> {
        self.entries@
    }

    /// The table by port number.
    pub closed spec fn as_map(&self) -> Map<u16, UserPort> {
        Map::new(
            |k: u16| port_numbers(self.entries@).contains(k),
            |k: u16| self.entries@[port_numbers(self.entries@).index_of(k)],
        )
    }

    /// Every entry is stored under its own port.
    pub proof fn lemma_keys(&self)
        requires
            self.wf(),
        ensures
            forall|k: u16| #[trigger] self@.contains_key(k) ==> self@[k].port == k,
            self@.dom().finite(),
            self@.dom().len() == self.entry_seq().len(),
    {
        assert forall|k: u16| #[trigger] self@.contains_key(k) implies self@[k].port == k by {
            let i = port_numbers(self.entries@).index_of(k);
            assert(port_numbers(self.entries@)[i] == k);
        }
        assert(self@.dom() =~= port_numbers(self.entries@).to_set());
        port_numbers(self.entries@).unique_seq_to_set();
    }

    /// An empty table.
    pub fn new() -> (t: Self)
        ensures
            t.wf(),
            t@ == Map::<u16, UserPort>::empty(),
    {
        let t = PortTable { entries: Vec::new() };
        assert(port_numbers(t.entries@) =~= Seq::<u16>::empty());
        assert(t@ =~= Map::<u16, UserPort>::empty());
        t
    }

    /// Number of active ports.
    pub fn len(&self) -> (n: usize)
        requires
            self.wf(),
        ensures
            n == self@.dom().len(),
    {
        proof {
            self.lemma_keys();
        }
        self.entries.len()
    }

    /// Storage position of `port`.
    fn find(&self, port: u16) -> (r: Option<usize>)
        requires
            self.wf(),
        ensures
            match r {
                Some(i) => i < self.entries@.len() && self.entries@[i as int].port == port
                    && self@.contains_key(port) && self@[port] == self.entries@[i as int],
                None => !self@.contains_key(port),
            },
    {
        let mut i: usize = 0;
        while i < self.entries.len()
            invariant
                self.wf(),
                i <= self.entries@.len(),
                forall|j: int| 0 <= j < i ==> self.entries@[j].port != port,
            decreases self.entries@.len() - i,
        {
            if self.entries[i].port == port {
                proof {
                    let ns = port_numbers(self.entries@);
                    assert(ns[i as int] == port);
                    assert(ns.contains(port));
                    let j = ns.index_of(port);
                    assert(ns[j] == port);
                }
                return Some(i);
            }
            i = i + 1;
        }
        proof {
            if port_numbers(self.entries@).contains(port) {
                let j = choose|j: int|
                    0 <= j < port_numbers(self.entries@).len() && port_numbers(self.entries@)[j]
                        == port;
                assert(self.entries@[j].port == port);
            }
        }
        None
    }

    /// `port` is active.
    pub fn contains(&self, port: u16) -> (r: bool)
        requires
            self.wf(),
        ensures
            r == self@.contains_key(port),
    {
        self.find(port).is_some()
    }

    /// The entry of `port`.
    pub fn get(&self, port: u16) -> (r: Option<&UserPort>)
        requires
            self.wf(),
        ensures
            match r {
                Some(p) => self@.contains_key(port) && *p == self@[port],
                None => !self@.contains_key(port),
            },
    {
        match self.find(port) {
            Some(i) => Some(&self.entries[i]),
            None => None,
        }
    }

    /// Takes the entry of `port` out.
    pub fn remove(&mut self, port: u16) -> (r: Option<UserPort>)
        requires
            old(self).wf(),
        ensures
            final(self).wf(),
            final(self)@ == old(self)@.remove(port),
            match r {
                Some(p) => old(self)@.contains_key(port) && p == old(self)@[port],
                None => !old(self)@.contains_key(port),
            },
    {
        match self.find(port) {
            None => {
                assert(self@.remove(port) =~= self@);
                None
            },
            Some(i) => {
                let ghost old_entries = self.entries@;
                let ghost old_view = self@;
                let ghost ns = port_numbers(old_entries);
                assert(ns[i as int] == port);
                let p = self.entries.remove(i);
                let ghost nn = port_numbers(self.entries@);
                assert(nn =~= ns.remove(i as int));
                assert(nn.no_duplicates()) by {
                    assert forall|a: int, b: int|
                        0 <= a < nn.len() && 0 <= b < nn.len() && a != b implies nn[a] != nn[b] by {
                        let a2 = if a < i { a } else { a + 1 };
                        let b2 = if b < i { b } else { b + 1 };
                        assert(nn[a] == ns[a2]);
                        assert(nn[b] == ns[b2]);
                    }
                }
                proof {
                    assert forall|k: u16| #[trigger] self@.contains_key(k) == old_view.remove(
                        port,
                    ).contains_key(k) by {
                        assert(old_view.contains_key(k) == ns.contains(k));
                        assert(self@.contains_key(k) == nn.contains(k));
                        if nn.contains(k) {
                            let a = choose|a: int| 0 <= a < nn.len() && nn[a] == k;
                            let a2 = if a < i { a } else { a + 1 };
                            assert(ns[a2] == k);
                            assert(ns.contains(k));
                        }
                        if ns.contains(k) && k != port {
                            let a2 = choose|a: int| 0 <= a < ns.len() && ns[a] == k;
                            assert(a2 != i);
                            let a = if a2 < i { a2 } else { a2 - 1 };
                            assert(nn[a] == k);
                        }
                    }
                    assert forall|k: u16| #[trigger] self@.contains_key(k) implies self@[k]
                        == old_view[k] by {
                        let a = nn.index_of(k);
                        assert(nn[a] == k);
                        let a2 = if a < i { a } else { a + 1 };
                        assert(ns[a2] == k);
                        assert(ns.contains(k));
                        let b = ns.index_of(k);
                        assert(ns[b] == k);
                        assert(b == a2);
                    }
                    assert(self@ =~= old_view.remove(port));
                }
                Some(p)
            },
        }
    }

    /// Stores `p` under its port, replacing any entry there.
    pub fn insert(&mut self, p: UserPort)
        requires
            old(self).wf(),
        ensures
            final(self).wf(),
            final(self)@ == old(self)@.insert(p.port, p),
    {
        let ghost old_view = self@;
        let _ = self.remove(p.port);
        let ghost mid_view = self@;
        let ghost mid = port_numbers(self.entries@);
        let ghost pv = p;
        let port = p.port;
        self.entries.push(p);
        let ghost nn = port_numbers(self.entries@);
        assert(nn =~= mid.push(port));
        assert(!mid_view.contains_key(port));
        assert(!mid.contains(port));
        assert(nn.no_duplicates()) by {
            assert forall|a: int, b: int|
                0 <= a < nn.len() && 0 <= b < nn.len() && a != b implies nn[a] != nn[b] by {
                if a == mid.len() {
                    assert(nn[b] == mid[b]);
                } else if b == mid.len() {
                    assert(nn[a] == mid[a]);
                } else {
                    assert(nn[a] == mid[a]);
                    assert(nn[b] == mid[b]);
                }
            }
        }
        proof {
            let n = mid.len() as int;
            assert(nn[n] == port);
            assert forall|k: u16| #[trigger] self@.contains_key(k) == old_view.insert(
                port,
                pv,
            ).contains_key(k) by {
                if k == port {
                    assert(nn.contains(k));
                } else {
                    assert(mid_view.contains_key(k) == mid.contains(k));
                    assert(old_view.contains_key(k) == mid_view.contains_key(k));
                    if mid.contains(k) {
                        let a = choose|a: int| 0 <= a < mid.len() && mid[a] == k;
                        assert(nn[a] == k);
                    }
                    if nn.contains(k) {
                        let a = choose|a: int| 0 <= a < nn.len() && nn[a] == k;
                        assert(a != n);
                        assert(mid[a] == k);
                    }
                }
            }
            assert forall|k: u16| #[trigger] self@.contains_key(k) implies self@[k]
                == old_view.insert(port, pv)[k] by {
                let a = nn.index_of(k);
                assert(nn[a] == k);
                if k == port {
                    assert(a == n);
                } else {
                    assert(a != n);
                    assert(mid[a] == k);
                    assert(mid.contains(k));
                    let b = mid.index_of(k);
                    assert(mid[b] == k);
                    assert(b == a);
                    assert(mid_view[k] == old_view[k]);
                }
            }
            assert(self@ =~= old_view.insert(port, pv));
        }
    }

    /// The entry at storage position `i` is the table's entry for its port.
    proof fn lemma_entry(&self, i: int)
        requires
            self.wf(),
            0 <= i < self.entries@.len(),
        ensures
            self@.contains_key(self.entries@[i].port),
            self@[self.entries@[i].port] == self.entries@[i],
    {
        let ns = port_numbers(self.entries@);
        let k = self.entries@[i].port;
        assert(ns[i] == k);
        assert(ns.contains(k));
        let j = ns.index_of(k);
        assert(ns[j] == k);
    }

    /// Drops every port whose lease ends at or before `block`.
    pub fn expire(&mut self, block: u64)
        requires
            old(self).wf(),
        ensures
            final(self).wf(),
            final(self)@ == old(self)@.restrict(
                old(self)@.dom().filter(|k: u16| old(self)@[k].expires_at_block > block),
            ),
    {
        let ghost old_view = self@;
        let ghost all = self.entries@;
        proof {
            assert forall|j: int| 0 <= j < all.len() implies old_view.contains_key(
                #[trigger] all[j].port,
            ) && old_view[all[j].port] == all[j] by {
                self.lemma_entry(j);
            }
        }
        let mut fresh = PortTable::new();
        let mut src: Vec<UserPort> = Vec::new();
        std::mem::swap(&mut src, &mut self.entries);
        let n = src.len();
        let mut i: usize = 0;
        while i < n
            invariant
                n == all.len(),
                i <= n,
                src@ == all.skip(i as int),
                port_numbers(all).no_duplicates(),
                forall|j: int|
                    0 <= j < all.len() ==> old_view.contains_key(#[trigger] all[j].port)
                        && old_view[all[j].port] == all[j],
                fresh.wf(),
                fresh@ == old_view.restrict(
                    Set::new(
                        |k: u16|
                            exists|j: int|
                                0 <= j < i && #[trigger] all[j].port == k && all[j].expires_at_block
                                    > block,
                    ),
                ),
            decreases n - i,
        {
            let ghost prev = fresh@;
            let e = src.remove(0);
            assert(e == all[i as int]);
            if e.expires_at_block > block {
                fresh.insert(e);
            }
            proof {
                let k0 = all[i as int].port;
                assert(old_view.contains_key(k0));
                let s_new = Set::new(
                    |k: u16|
                        exists|j: int|
                            0 <= j < i + 1 && #[trigger] all[j].port == k && all[j].expires_at_block
                                > block,
                );
                assert forall|k: u16| #[trigger] fresh@.contains_key(k) == old_view.restrict(
                    s_new,
                ).contains_key(k) by {
                    if k == k0 {
                        if all[i as int].expires_at_block > block {
                            assert(s_new.contains(k));
                        } else {
                            if s_new.contains(k) {
                                let j = choose|j: int|
                                    0 <= j < i + 1 && #[trigger] all[j].port == k
                                        && all[j].expires_at_block > block;
                                if j != i {
                                    assert(port_numbers(all)[j] == port_numbers(all)[i as int]);
                                }
                            }
                            if prev.contains_key(k) {
                                let j = choose|j: int|
                                    0 <= j < i && #[trigger] all[j].port == k
                                        && all[j].expires_at_block > block;
                                assert(port_numbers(all)[j] == port_numbers(all)[i as int]);
                            }
                        }
                    } else {
                        if s_new.contains(k) {
                            let j = choose|j: int|
                                0 <= j < i + 1 && #[trigger] all[j].port == k
                                    && all[j].expires_at_block > block;
                            assert(j != i);
                        }
                    }
                }
                assert(fresh@ =~= old_view.restrict(s_new));
            }
            i = i + 1;
            assert(src@ =~= all.skip(i as int));
        }
        proof {
            let s_all = Set::new(
                |k: u16|
                    exists|j: int|
                        0 <= j < all.len() && #[trigger] all[j].port == k && all[j].expires_at_block
                            > block,
            );
            let f = old_view.dom().filter(|k: u16| old_view[k].expires_at_block > block);
            assert forall|k: u16| old_view.dom().contains(k) implies #[trigger] s_all.contains(k)
                == f.contains(k) by {
                let ns = port_numbers(all);
                let j = ns.index_of(k);
                assert(ns[j] == k);
                if s_all.contains(k) {
                    let j2 = choose|j2: int|
                        0 <= j2 < all.len() && #[trigger] all[j2].port == k
                            && all[j2].expires_at_block > block;
                }
            }
            assert(old_view.restrict(s_all) =~= old_view.restrict(f));
        }
        *self = fresh;
    }
}

impl View for PortTable {
    type V = Map<u16, UserPort>;

    closed spec fn view(&self) -> Map<u16, UserPort> {
        self.as_map()
    }
}

} // verus!
