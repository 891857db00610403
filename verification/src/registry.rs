//! Dispatcher-side session registry: routing of inbound datagrams by source
//! address, and admission control with a fixed bound.

use vstd::prelude::*;
use crate::codec::{Packet, PacketSpec};

verus! {

/// A client's transport address, as plain values: the numeric IP and port.
#[derive(Clone, Copy, PartialEq, Eq, Structural, Debug, Hash)]
pub struct ClientAddr {
    pub ip: u128,
    pub port: u16,
}

/// What the dispatcher does with one decoded inbound datagram.
#[derive(Clone, Copy, PartialEq, Eq, Structural, Debug)]
pub enum RouteDecision {
    /// FILE_REQUEST from an unregistered address with room left: create and
    /// register a session.
    AdmitNew,
    /// FILE_REQUEST from an unregistered address while the registry is at its
    /// bound: reply CAPACITY_EXCEEDED and register nothing.
    RejectCapacity,
    /// FILE_REQUEST from an address that already has a live session: drop it,
    /// never spawn a duplicate.
    DropDuplicate,
    /// Any other packet from a registered address: forward it into that
    /// session's queue.
    Forward,
    /// Any other packet from an unregistered address: drop it.
    DropNoSession,
}

/// The routing rule, over the registered addresses and the admission bound.
pub open spec fn spec_route(
    entries: Seq<ClientAddr>,
    bound: int,
    src: ClientAddr,
    p: PacketSpec,
) -> RouteDecision {
    if p is FileRequest {
        if entries.contains(src) {
            RouteDecision::DropDuplicate
        } else if entries.len() >= bound {
            RouteDecision::RejectCapacity
        } else {
            RouteDecision::AdmitNew
        }
    } else {
        if entries.contains(src) {
            RouteDecision::Forward
        } else {
            RouteDecision::DropNoSession
        }
    }
}

/// With the registry full at its bound, a request from a fresh address is
/// rejected outright — the request arriving exactly at the bound is the one
/// refused, not the one before it.
pub proof fn lemma_admission_bound(
    entries: Seq<ClientAddr>,
    bound: int,
    src: ClientAddr,
    name: Seq<u8>,
)
    requires
        entries.len() >= bound,
        !entries.contains(src),
    ensures
        spec_route(entries, bound, src, PacketSpec::FileRequest { name })
            == RouteDecision::RejectCapacity,
{
}

/// Two sequential, non-overlapping requests from one address each succeed:
/// the first is admitted; while its session lives a second request from the
/// same address is dropped, not merged; and once the entry is removed the
/// same address is admitted afresh.
pub proof fn lemma_sequential_requests(
    entries: Seq<ClientAddr>,
    bound: int,
    src: ClientAddr,
    name: Seq<u8>,
)
    requires
        entries.len() < bound,
        !entries.contains(src),
    ensures
        spec_route(entries, bound, src, PacketSpec::FileRequest { name })
            == RouteDecision::AdmitNew,
        spec_route(entries.push(src), bound, src, PacketSpec::FileRequest { name })
            == RouteDecision::DropDuplicate,
        spec_route(entries.push(src).remove(entries.len() as int), bound, src,
            PacketSpec::FileRequest { name }) == RouteDecision::AdmitNew,
{
    assert(entries.push(src)[entries.len() as int] == src);
    assert(entries.push(src).remove(entries.len() as int) =~= entries);
}

/// The admission bound is valid when it admits at least one session.
pub fn validate_admission_bound(bound: usize) -> (r: bool)
    ensures
        r == (bound >= 1),
{
    bound >= 1
}

/// The set of live sessions, keyed by client address, with its bound.
pub struct Registry {
    pub entries: Vec<ClientAddr>,
    pub bound: usize,
}

impl Registry {
    /// At most `bound` registered addresses, each at most once.
    pub open spec fn wf(self) -> bool {
        &&& self.bound >= 1
        &&& self.entries@.len() <= self.bound
        &&& forall|a: int, b: int| 0 <= a < b < self.entries@.len()
            ==> self.entries@[a] != self.entries@[b]
    }

    /// An empty registry with the given admission bound.
    pub fn new(bound: usize) -> (r: Registry)
        requires
            bound >= 1,
        ensures
            r.wf(),
            r.entries@ == Seq::<ClientAddr>::empty(),
            r.bound == bound,
    {
        Registry { entries: Vec::new(), bound }
    }

    /// Whether `src` has a live session.
    pub fn contains(&self, src: ClientAddr) -> (r: bool)
        ensures
            r == self.entries@.contains(src),
    {
        let mut i: usize = 0;
        while i < self.entries.len()
            invariant
                i <= self.entries@.len(),
                forall|t: int| 0 <= t < i ==> self.entries@[t] != src,
            decreases self.entries@.len() - i,
        {
            let e = self.entries[i];
            if e.ip == src.ip && e.port == src.port {
                proof {
                    assert(self.entries@[i as int] == src);
                }
                return true;
            }
            i = i + 1;
        }
        false
    }

    /// Routes one decoded datagram per the dispatcher rule; the registry is
    /// not changed.
    pub fn route(&self, src: ClientAddr, p: &Packet) -> (d: RouteDecision)
        requires
            self.wf(),
        ensures
            d == spec_route(self.entries@, self.bound as int, src, p@),
    {
        let is_request = match p {
            Packet::FileRequest { .. } => true,
            _ => false,
        };
        let registered = self.contains(src);
        if is_request {
            if registered {
                RouteDecision::DropDuplicate
            } else if self.entries.len() >= self.bound {
                RouteDecision::RejectCapacity
            } else {
                RouteDecision::AdmitNew
            }
        } else {
            if registered {
                RouteDecision::Forward
            } else {
                RouteDecision::DropNoSession
            }
        }
    }

    /// Registers `src` if it is new and the bound leaves room; reports
    /// whether it was registered.
    pub fn register(&mut self, src: ClientAddr) -> (r: bool)
        requires
            old(self).wf(),
        ensures
            final(self).wf(),
            final(self).bound == old(self).bound,
            r == (!old(self).entries@.contains(src)
                && old(self).entries@.len() < old(self).bound),
            r ==> final(self).entries@ == old(self).entries@.push(src),
            !r ==> final(self).entries@ == old(self).entries@,
    {
        let registered = self.contains(src);
        if !registered && self.entries.len() < self.bound {
            self.entries.push(src);
            proof {
                assert forall|a: int, b: int|
                    0 <= a < b < self.entries@.len()
                    implies self.entries@[a] != self.entries@[b] by {
                    if b == self.entries@.len() - 1 {
                        assert(self.entries@[a] == old(self).entries@[a]);
                        assert(old(self).entries@.contains(old(self).entries@[a]));
                    }
                }
            }
            true
        } else {
            false
        }
    }

    /// Removes the entry for `src`, if any — how a terminated session frees
    /// its address for a later request. Reports whether an entry was removed;
    /// every other address keeps its registration.
    pub fn remove(&mut self, src: ClientAddr) -> (r: bool)
        requires
            old(self).wf(),
        ensures
            final(self).wf(),
            final(self).bound == old(self).bound,
            r == old(self).entries@.contains(src),
            !final(self).entries@.contains(src),
            forall|a: ClientAddr| a != src
                ==> (final(self).entries@.contains(a) <==> old(self).entries@.contains(a)),
            r ==> final(self).entries@.len() == old(self).entries@.len() - 1,
            !r ==> final(self).entries@ == old(self).entries@,
    {
        let mut i: usize = 0;
        while i < self.entries.len()
            invariant
                old(self).wf(),
                i <= self.entries@.len(),
                self.entries@ == old(self).entries@,
                self.bound == old(self).bound,
                forall|t: int| 0 <= t < i ==> self.entries@[t] != src,
            decreases self.entries@.len() - i,
        {
            let e = self.entries[i];
            if e.ip == src.ip && e.port == src.port {
                proof {
                    assert(self.entries@[i as int] == src);
                }
                let ghost prev = self.entries@;
                let ghost idx = i as int;
                self.entries.remove(i);
                proof {
                    let cur = self.entries@;
                    assert(prev == old(self).entries@);
                    assert(cur == prev.remove(idx));
                    prev.remove_ensures(idx);
                    assert(prev[idx] == src);
                    assert(prev.contains(src));
                    assert(forall|a: int, b: int| 0 <= a < b < prev.len()
                        ==> prev[a] != prev[b]);
                    assert forall|t: int| 0 <= t < cur.len() implies cur[t] != src by {
                        if t < idx {
                            assert(cur[t] == prev[t]);
                            assert(prev[t] != src);
                        } else {
                            assert(cur[t] == prev[t + 1]);
                            assert(prev[idx] != prev[t + 1]);
                        }
                    }
                    assert(!cur.contains(src));
                    assert forall|a: ClientAddr| a != src
                        implies (cur.contains(a) <==> prev.contains(a)) by {
                        if cur.contains(a) {
                            let t = choose|t: int| 0 <= t < cur.len() && cur[t] == a;
                            if t < idx {
                                assert(cur[t] == prev[t]);
                                assert(prev[t] == a);
                            } else {
                                assert(cur[t] == prev[t + 1]);
                                assert(prev[t + 1] == a);
                            }
                        }
                        if prev.contains(a) {
                            let t = choose|t: int| 0 <= t < prev.len() && prev[t] == a;
                            if t < idx {
                                assert(cur[t] == prev[t]);
                                assert(cur[t] == a);
                            } else {
                                assert(t != idx);
                                assert(idx <= t - 1 < cur.len());
                                assert(cur[t - 1] == prev[t]);
                                assert(cur[t - 1] == a);
                            }
                        }
                    }
                    assert forall|a: int, b: int| 0 <= a < b < cur.len()
                        implies cur[a] != cur[b] by {
                        let pa: int = if a < idx { a } else { a + 1 };
                        let pb: int = if b < idx { b } else { b + 1 };
                        if a < idx {
                            assert(cur[a] == prev[a]);
                        } else {
                            assert(cur[a] == prev[a + 1]);
                        }
                        if b < idx {
                            assert(cur[b] == prev[b]);
                        } else {
                            assert(cur[b] == prev[b + 1]);
                        }
                        assert(prev[pa] != prev[pb]);
                    }
                }
                return true;
            }
            i = i + 1;
        }
        proof {
            if self.entries@.contains(src) {
                let t = choose|t: int| 0 <= t < self.entries@.len() && self.entries@[t] == src;
                assert(self.entries@[t] != src);
            }
        }
        false
    }
}

} // verus!
