//! The registry of live connections, keyed by peer address.

use vstd::prelude::*;
use crate::addr::PeerAddr;
use crate::roster::{others, with_addr, lemma_others_remove, lemma_others_absent, lemma_others_push,
    lemma_others_empty, lemma_others_no_duplicates, lemma_others_len, lemma_others_members};

verus! {

/// A registered connection: the peer's address and the handle through which
/// bytes are written to that peer.
pub struct Connection<H> {
    pub address: PeerAddr,
    pub handle: H,
}

/// The addresses of `entries`, in their order.
pub open spec fn addresses_of<H>(entries: Seq<Connection<H>>) -> Seq<PeerAddr> {
    Seq::new(entries.len(), |i: int| entries[i].address)
}

/// The handle of each address of `entries`.
pub open spec fn handles_of<H>(entries: Seq<Connection<H>>) -> Map<PeerAddr, H> {
    Map::new(
        |a: PeerAddr| addresses_of(entries).contains(a),
        |a: PeerAddr| entries[addresses_of(entries).index_of(a)].handle,
    )
}

/// Where no address repeats, each entry's address leads to that entry's handle.
proof fn lemma_handle_at<H>(entries: Seq<Connection<H>>, i: int)
    requires
        addresses_of(entries).no_duplicates(),
        0 <= i < entries.len(),
    ensures
        handles_of(entries).contains_key(entries[i].address),
        handles_of(entries)[entries[i].address] == entries[i].handle,
{
    let addrs = addresses_of(entries);
    assert(addrs[i] == entries[i].address);
    assert(addrs.contains(entries[i].address));
    let j = addrs.index_of(entries[i].address);
    assert(addrs[j] == addrs[i]);
}

/// The addresses with a handle are the addresses of the entries.
proof fn lemma_handles_domain<H>(entries: Seq<Connection<H>>)
    ensures
        handles_of(entries).dom() == addresses_of(entries).to_set(),
{
    assert(handles_of(entries).dom() =~= addresses_of(entries).to_set());
}

/// The live connections: each peer address at most once, in the order of
/// admission.
pub struct Registry<H> {
    entries: Vec<Connection<H>>,
}

impl<H> View for Registry<H> {
    type V = Map<PeerAddr, H>;

    /// The handle of each registered address.
    closed spec fn view(&self) -> Map<PeerAddr, H> {
        handles_of(self.entries@)
    }
}

impl<H> Registry<H> {
    #[verifier::type_invariant]
    spec fn unique(self) -> bool {
        addresses_of(self.entries@).no_duplicates()
    }

    /// The registered addresses, in the order of admission.
    pub closed spec fn addrs(&self) -> Seq<PeerAddr> {
        addresses_of(self.entries@)
    }

    /// What holds of every registry: no address is registered twice, and the
    /// addresses that have a handle are the registered ones.
    pub open spec fn valid(&self) -> bool {
        &&& self.addrs().no_duplicates()
        &&& self@.dom() == self.addrs().to_set()
    }

    /// A registry without connections.
    pub fn new() -> (r: Self)
        ensures
            r.addrs() == Seq::<PeerAddr>::empty(),
            r@ == Map::<PeerAddr, H>::empty(),
            r.valid(),
    {
        let r = Registry { entries: Vec::new() };
        assert(r.addrs() =~= Seq::<PeerAddr>::empty());
        assert(r@ =~= Map::<PeerAddr, H>::empty());
        assert(r@.dom() =~= r.addrs().to_set());
        r
    }

    /// Does nothing when it runs; it lets the caller rely on what holds of
    /// every registry.
    pub fn known_valid(&self)
        ensures
            self.valid(),
    {
        proof {
            use_type_invariant(self);
            lemma_handles_domain(self.entries@);
        }
    }

    /// The number of registered connections.
    pub fn len(&self) -> (n: usize)
        ensures
            n == self.addrs().len(),
            n == self@.dom().len(),
            self.valid(),
    {
        proof {
            use_type_invariant(self);
            lemma_handles_domain(self.entries@);
            self.addrs().unique_seq_to_set();
        }
        self.entries.len()
    }

    /// The place of `addr` among the entries, if it is registered.
    fn position(&self, addr: PeerAddr) -> (r: Option<usize>)
        ensures
            match r {
                Some(i) => i < self.entries@.len() && self.entries@[i as int].address == addr,
                None => !self.addrs().contains(addr),
            },
    {
        let mut i: usize = 0;
        while i < self.entries.len()
            invariant
                i <= self.entries@.len(),
                forall|j: int| 0 <= j < i ==> self.entries@[j].address != addr,
            decreases self.entries@.len() - i,
        {
            if self.entries[i].address == addr {
                return Some(i);
            }
            i += 1;
        }
        None
    }

    /// Whether `addr` is registered.
    pub fn contains(&self, addr: PeerAddr) -> (r: bool)
        ensures
            r == self.addrs().contains(addr),
            r == self@.contains_key(addr),
            self.valid(),
    {
        proof {
            use_type_invariant(self);
            lemma_handles_domain(self.entries@);
        }
        match self.position(addr) {
            Some(i) => {
                assert(self.addrs()[i as int] == addr);
                true
            },
            None => false,
        }
    }

    /// The handle registered for `addr`.
    pub fn handle(&self, addr: PeerAddr) -> (r: Option<&H>)
        ensures
            match r {
                Some(h) => self@.contains_key(addr) && *h == self@[addr],
                None => !self@.contains_key(addr),
            },
            self.valid(),
    {
        proof {
            use_type_invariant(self);
            lemma_handles_domain(self.entries@);
        }
        match self.position(addr) {
            Some(i) => {
                proof {
                    lemma_handle_at(self.entries@, i as int);
                }
                Some(&self.entries[i].handle)
            },
            None => None,
        }
    }

    /// Registers `handle` for `addr`. A handle that was registered for `addr`
    /// is replaced and returned; the address keeps its place.
    pub fn insert(&mut self, addr: PeerAddr, handle: H) -> (previous: Option<H>)
        ensures
            final(self)@ == old(self)@.insert(addr, handle),
            final(self).addrs() == with_addr(old(self).addrs(), addr),
            previous == if old(self)@.contains_key(addr) {
                Some(old(self)@[addr])
            } else {
                None::<H>
            },
            final(self).valid(),
    {
        proof {
            use_type_invariant(&*self);
        }
        let ghost before = self.entries@;
        let found = self.position(addr);
        let mut entries: Vec<Connection<H>> = Vec::new();
        std::mem::swap(&mut self.entries, &mut entries);
        let ghost at: int;
        let previous = match found {
            Some(i) => {
                assert(addresses_of(before)[i as int] == addr);
                proof {
                    lemma_handle_at(before, i as int);
                    at = i as int;
                }
                let gone = entries.remove(i);
                entries.insert(i, Connection { address: addr, handle });
                assert(addresses_of(entries@) =~= addresses_of(before));
                Some(gone.handle)
            },
            None => {
                proof {
                    at = before.len() as int;
                }
                entries.push(Connection { address: addr, handle });
                assert(addresses_of(entries@) =~= addresses_of(before).push(addr));
                None
            },
        };
        self.entries = entries;
        proof {
            let after = self.entries@;
            assert(0 <= at < after.len());
            assert(after[at].address == addr && after[at].handle == handle);
            assert(forall|k: int| 0 <= k < before.len() && k != at ==> before[k] == after[k]);
            assert(addresses_of(after)[at] == addr);
            lemma_handle_at(after, at);
            assert forall|a: PeerAddr| #[trigger]
                handles_of(after).contains_key(a) == handles_of(before).insert(
                    addr,
                    handle,
                ).contains_key(a) by {
                if a != addr && addresses_of(after).contains(a) {
                    let k = addresses_of(after).index_of(a);
                    assert(addresses_of(before)[k] == a);
                }
                if a != addr && addresses_of(before).contains(a) {
                    let k = addresses_of(before).index_of(a);
                    assert(addresses_of(after)[k] == a);
                }
            }
            assert forall|a: PeerAddr| #[trigger]
                handles_of(after).contains_key(a) implies handles_of(after)[a] == handles_of(
                before,
            ).insert(addr, handle)[a] by {
                if a != addr {
                    let k = addresses_of(after).index_of(a);
                    lemma_handle_at(after, k);
                    assert(before[k] == after[k]);
                    lemma_handle_at(before, k);
                }
            }
            assert(handles_of(after) =~= handles_of(before).insert(addr, handle));
            assert(self@.dom() =~= self.addrs().to_set());
        }
        previous
    }

    /// Removes the connection of `addr` and returns its handle. Where `addr`
    /// is not registered, nothing changes.
    pub fn remove(&mut self, addr: PeerAddr) -> (removed: Option<H>)
        ensures
            final(self)@ == old(self)@.remove(addr),
            final(self).addrs() == others(old(self).addrs(), addr),
            removed == if old(self)@.contains_key(addr) {
                Some(old(self)@[addr])
            } else {
                None::<H>
            },
            !old(self).addrs().contains(addr) ==> *final(self) == *old(self),
            final(self).valid(),
    {
        proof {
            use_type_invariant(&*self);
        }
        let ghost before = self.entries@;
        match self.position(addr) {
            Some(i) => {
                assert(addresses_of(before)[i as int] == addr);
                proof {
                    lemma_handle_at(before, i as int);
                }
                let mut entries: Vec<Connection<H>> = Vec::new();
                std::mem::swap(&mut self.entries, &mut entries);
                let gone = entries.remove(i);
                proof {
                    assert(addresses_of(entries@) =~= addresses_of(before).remove(i as int));
                    lemma_others_remove(addresses_of(before), i as int);
                    lemma_others_no_duplicates(addresses_of(before), addr);
                }
                self.entries = entries;
                proof {
                    let after = self.entries@;
                    lemma_others_members(addresses_of(before), addr);
                    assert forall|a: PeerAddr| #[trigger]
                        handles_of(after).contains_key(a) implies handles_of(after)[a]
                        == handles_of(before)[a] by {
                        let k = addresses_of(after).index_of(a);
                        lemma_handle_at(after, k);
                        if k < i {
                            assert(before[k] == after[k]);
                            lemma_handle_at(before, k);
                        } else {
                            assert(before[k + 1] == after[k]);
                            lemma_handle_at(before, k + 1);
                        }
                    }
                    assert(handles_of(after) =~= handles_of(before).remove(addr));
                    assert(self@.dom() =~= self.addrs().to_set());
                }
                Some(gone.handle)
            },
            None => {
                proof {
                    lemma_others_absent(addresses_of(before), addr);
                    assert(handles_of(before) =~= handles_of(before).remove(addr));
                    assert(self@.dom() =~= self.addrs().to_set());
                }
                None
            },
        }
    }

    /// The registered addresses, in the order of admission.
    pub fn addresses(&self) -> (r: Vec<PeerAddr>)
        ensures
            r@ == self.addrs(),
            self.valid(),
    {
        proof {
            use_type_invariant(self);
            lemma_handles_domain(self.entries@);
        }
        let mut r: Vec<PeerAddr> = Vec::new();
        let mut i: usize = 0;
        while i < self.entries.len()
            invariant
                i <= self.entries@.len(),
                r@ == addresses_of(self.entries@).take(i as int),
            decreases self.entries@.len() - i,
        {
            r.push(self.entries[i].address);
            assert(r@ =~= addresses_of(self.entries@).take(i + 1));
            i += 1;
        }
        assert(r@ =~= addresses_of(self.entries@));
        r
    }

    /// The registered addresses other than `sender`, in the order of
    /// admission: the peers that a message from `sender` goes to.
    pub fn recipients(&self, sender: PeerAddr) -> (r: Vec<PeerAddr>)
        ensures
            r@ == others(self.addrs(), sender),
            !r@.contains(sender),
            r@.no_duplicates(),
            self.addrs().contains(sender) ==> r@.len() == self.addrs().len() - 1,
            !self.addrs().contains(sender) ==> r@ == self.addrs(),
            self.valid(),
    {
        let mut r: Vec<PeerAddr> = Vec::new();
        let mut i: usize = 0;
        proof {
            lemma_others_empty(sender);
            assert(addresses_of(self.entries@).take(0) =~= Seq::<PeerAddr>::empty());
        }
        while i < self.entries.len()
            invariant
                i <= self.entries@.len(),
                r@ == others(addresses_of(self.entries@).take(i as int), sender),
            decreases self.entries@.len() - i,
        {
            let addr = self.entries[i].address;
            proof {
                let all = addresses_of(self.entries@);
                assert(all.take(i + 1) =~= all.take(i as int).push(addr));
                lemma_others_push(all.take(i as int), addr, sender);
            }
            if addr != sender {
                r.push(addr);
            }
            i += 1;
        }
        proof {
            use_type_invariant(self);
            lemma_handles_domain(self.entries@);
            let all = addresses_of(self.entries@);
            assert(all.take(i as int) =~= all);
            lemma_others_members(all, sender);
            lemma_others_no_duplicates(all, sender);
            if all.contains(sender) {
                lemma_others_len(all, sender);
            } else {
                lemma_others_absent(all, sender);
            }
        }
        r
    }
}

} // verus!
