//! Event-loop bookkeeping: the connection table and its teardown protocol.
//!
//! The event loop owns one `Engine`: the port allocator and the table that
//! pairs each virtual-socket handle with the ephemeral port its connection
//! holds.  The handle is an arena index into the protocol stack's socket
//! set; the table is the side-table keyed by it, with exactly one connection
//! per handle and one handle per port.  Entries enter the table only when a
//! real accept and a virtual connect succeed together, and leave it only
//! through the teardown protocol, which releases the port and erases the
//! entry in one step — a half-completed teardown is never observable.

use vstd::prelude::*;
use std::collections::HashMap;
use crate::bridge::{bridge_step, spec_bridge_state, spec_entry_dead, ReadOutcome, WriteOutcome};
use crate::port_alloc::{PortAlloc, EPHEMERAL_BASE, EPHEMERAL_SPAN};
use crate::vsock::VirtualSocket;

verus! {

broadcast use vstd::std_specs::hash::group_hash_axioms;

/// The event loop's bookkeeping state: which ports are outstanding and
/// which connection, by virtual-socket handle, holds which port.
pub struct Engine {
    ports: PortAlloc,
    table: HashMap<u64, u16>,
}

/// Some entry of `dead` names a connection that holds port `p`.
pub open spec fn spec_port_reaped(conns: Map<u64, u16>, dead: Seq<u64>, p: u16) -> bool {
    exists|i: int| 0 <= i < dead.len() && conns.contains_key(#[trigger] dead[i]) && conns[dead[i]]
        == p
}

/// Membership in one more element of a prefix: the longer prefix holds
/// exactly the shorter one's elements and the next one.
proof fn lemma_take_succ_contains(s: Seq<u64>, k: int, x: u64)
    requires
        0 <= k < s.len(),
    ensures
        s.take(k + 1).contains(x) <==> (s.take(k).contains(x) || x == s[k]),
{
    if s.take(k).contains(x) {
        let i = choose|i: int| 0 <= i < s.take(k).len() && #[trigger] s.take(k)[i] == x;
        assert(s.take(k + 1)[i] == x);
    }
    if x == s[k] {
        assert(s.take(k + 1)[k] == x);
    }
    if s.take(k + 1).contains(x) {
        let i = choose|i: int| 0 <= i < s.take(k + 1).len() && #[trigger] s.take(k + 1)[i] == x;
        if i < k {
            assert(s.take(k)[i] == x);
        }
    }
}

impl Engine {
    /// The outstanding ports, as the allocator holds them.
    pub closed spec fn ports_view(&self) -> Set<u16> {
        self.ports@
    }

    /// The connection table: virtual-socket handle to held port.
    pub closed spec fn conns(&self) -> Map<u64, u16> {
        self.table@
    }

    /// The table invariant: every tabled connection holds an outstanding
    /// port, and no two connections hold the same port.
    pub open spec fn wf(&self) -> bool {
        &&& self.ports_view().finite()
        &&& forall|h: u64| #[trigger]
            self.conns().contains_key(h) ==> self.ports_view().contains(self.conns()[h])
        &&& forall|h1: u64, h2: u64|
            #![trigger self.conns()[h1], self.conns()[h2]]
            self.conns().contains_key(h1) && self.conns().contains_key(h2) && h1 != h2
                ==> self.conns()[h1] != self.conns()[h2]
    }

    /// No connections and no outstanding ports to begin with.
    pub fn new() -> (e: Engine)
        ensures
            e.wf(),
            e.ports_view() == Set::<u16>::empty(),
            e.conns() == Map::<u64, u16>::empty(),
    {
        Engine { ports: PortAlloc::new(), table: HashMap::new() }
    }

    /// First half of admitting a connection: allocate the ephemeral source
    /// port the virtual connect will use.  The port is outstanding from now
    /// on and no tabled connection holds it.
    pub fn begin_connection(&mut self) -> (port: u16)
        requires
            old(self).wf(),
            old(self).ports_view().len() < EPHEMERAL_SPAN as nat,
        ensures
            final(self).wf(),
            !old(self).ports_view().contains(port),
            final(self).ports_view() == old(self).ports_view().insert(port),
            final(self).conns() == old(self).conns(),
            forall|h: u64| #[trigger]
                final(self).conns().contains_key(h) ==> final(self).conns()[h] != port,
            EPHEMERAL_BASE <= port < EPHEMERAL_BASE + EPHEMERAL_SPAN,
    {
        let port = self.ports.get();
        proof {
            assert(self.conns() == old(self).conns());
            assert forall|h: u64| #[trigger]
                self.conns().contains_key(h) implies self.ports_view().contains(self.conns()[h])
                && self.conns()[h] != port by {
                assert(old(self).conns().contains_key(h));
                assert(old(self).ports_view().contains(old(self).conns()[h]));
            }
        }
        port
    }

    /// Second half of admitting a connection: once the virtual connect has
    /// produced a socket handle, table the pairing of that handle with the
    /// port allocated for it.
    pub fn register_connection(&mut self, handle: u64, port: u16)
        requires
            old(self).wf(),
            old(self).ports_view().contains(port),
            forall|h: u64| #[trigger]
                old(self).conns().contains_key(h) ==> old(self).conns()[h] != port,
            !old(self).conns().contains_key(handle),
        ensures
            final(self).wf(),
            final(self).conns() == old(self).conns().insert(handle, port),
            final(self).ports_view() == old(self).ports_view(),
    {
        self.table.insert(handle, port);
    }

    /// Admitting a connection in one step, for callers that have the handle
    /// at hand: allocate a port and table the pairing.
    pub fn admit_connection(&mut self, handle: u64) -> (port: u16)
        requires
            old(self).wf(),
            old(self).ports_view().len() < EPHEMERAL_SPAN as nat,
            !old(self).conns().contains_key(handle),
        ensures
            final(self).wf(),
            !old(self).ports_view().contains(port),
            final(self).ports_view() == old(self).ports_view().insert(port),
            final(self).conns() == old(self).conns().insert(handle, port),
            EPHEMERAL_BASE <= port < EPHEMERAL_BASE + EPHEMERAL_SPAN,
    {
        let port = self.begin_connection();
        self.register_connection(handle, port);
        port
    }

    /// Tears one dead connection down: the port returns to the allocator
    /// and the table entry goes, in the same step.  The freed port is
    /// available for reuse at once, and no later bridge scan sees the
    /// handle.
    pub fn reap(&mut self, handle: u64) -> (port: u16)
        requires
            old(self).wf(),
            old(self).conns().contains_key(handle),
        ensures
            final(self).wf(),
            port == old(self).conns()[handle],
            final(self).conns() == old(self).conns().remove(handle),
            final(self).ports_view() == old(self).ports_view().remove(port),
            !final(self).ports_view().contains(port),
            !final(self).conns().contains_key(handle),
    {
        let port = *self.table.get(&handle).unwrap();
        self.table.remove(&handle);
        self.ports.unget(port);
        port
    }

    /// Whether a handle is currently tabled.
    pub fn is_tracked(&self, handle: u64) -> (r: bool)
        ensures
            r == self.conns().contains_key(handle),
    {
        self.table.contains_key(&handle)
    }

    /// The port the tabled connection for `handle` holds.
    pub fn port_of(&self, handle: u64) -> (port: u16)
        requires
            self.conns().contains_key(handle),
        ensures
            port == self.conns()[handle],
    {
        *self.table.get(&handle).unwrap()
    }

    /// Whether some port of the ephemeral range is still free.
    pub fn can_admit(&self) -> (r: bool)
        requires
            self.wf(),
        ensures
            r == (self.ports_view().len() < EPHEMERAL_SPAN as nat),
    {
        self.ports.outstanding() < EPHEMERAL_SPAN as usize
    }

    /// Garbage collection: tears down every connection in the
    /// pending-removal list collected by the bridge scan.  Each listed
    /// handle leaves the table and its port returns to the allocator;
    /// nothing else changes.
    pub fn reap_all(&mut self, dead: &Vec<u64>)
        requires
            old(self).wf(),
            forall|i: int| 0 <= i < dead@.len() ==> old(self).conns().contains_key(#[trigger] dead@[i]),
            forall|i: int, j: int| 0 <= i < j < dead@.len() ==> dead@[i] != dead@[j],
        ensures
            final(self).wf(),
            forall|h: u64| #[trigger]
                final(self).conns().contains_key(h) <==> (old(self).conns().contains_key(h)
                    && !dead@.contains(h)),
            forall|h: u64| #[trigger]
                final(self).conns().contains_key(h) ==> final(self).conns()[h] == old(
                    self,
                ).conns()[h],
            forall|p: u16| #[trigger]
                final(self).ports_view().contains(p) <==> (old(self).ports_view().contains(p)
                    && !spec_port_reaped(old(self).conns(), dead@, p)),
    {
        let mut k: usize = 0;
        while k < dead.len()
            invariant
                self.wf(),
                k <= dead@.len(),
                forall|i: int|
                    0 <= i < dead@.len() ==> old(self).conns().contains_key(#[trigger] dead@[i]),
                forall|i: int, j: int| 0 <= i < j < dead@.len() ==> dead@[i] != dead@[j],
                forall|h: u64| #[trigger]
                    self.conns().contains_key(h) <==> (old(self).conns().contains_key(h)
                        && !dead@.take(k as int).contains(h)),
                forall|h: u64| #[trigger]
                    self.conns().contains_key(h) ==> self.conns()[h] == old(self).conns()[h],
                forall|p: u16| #[trigger]
                    self.ports_view().contains(p) <==> (old(self).ports_view().contains(p)
                        && !spec_port_reaped(old(self).conns(), dead@.take(k as int), p)),
            decreases dead@.len() - k,
        {
            let h = dead[k];
            proof {
                assert(old(self).conns().contains_key(dead@[k as int]));
                assert(!dead@.take(k as int).contains(h)) by {
                    if dead@.take(k as int).contains(h) {
                        let i = choose|i: int|
                            0 <= i < dead@.take(k as int).len() && #[trigger] dead@.take(
                                k as int,
                            )[i] == h;
                        assert(dead@[i] == dead@[k as int]);
                    }
                }
                assert(self.conns().contains_key(h));
            }
            let ghost before = *self;
            let p = self.reap(h);
            proof {
                let k1 = k as int + 1;
                assert(before.conns().contains_key(h));
                assert(before.conns()[h] == old(self).conns()[h]);
                assert(p == old(self).conns()[h]);
                assert forall|x: u64|
                    (#[trigger] self.conns().contains_key(x) <==> (old(
                        self,
                    ).conns().contains_key(x) && !dead@.take(k1).contains(x))) by {
                    lemma_take_succ_contains(dead@, k as int, x);
                    assert(before.conns().contains_key(x) <==> (old(self).conns().contains_key(x)
                        && !dead@.take(k as int).contains(x)));
                }
                assert forall|x: u64| #[trigger]
                    self.conns().contains_key(x) implies self.conns()[x] == old(
                    self,
                ).conns()[x] by {
                    assert(before.conns().contains_key(x));
                }
                assert forall|q: u16|
                    (#[trigger] self.ports_view().contains(q) <==> (old(
                        self,
                    ).ports_view().contains(q) && !spec_port_reaped(
                        old(self).conns(),
                        dead@.take(k1),
                        q,
                    ))) by {
                    if q == p {
                        assert(dead@.take(k1)[k as int] == h);
                        assert(old(self).conns().contains_key(dead@.take(k1)[k as int])
                            && old(self).conns()[dead@.take(k1)[k as int]] == q);
                        assert(spec_port_reaped(old(self).conns(), dead@.take(k1), q));
                        assert(!self.ports_view().contains(q));
                    } else {
                        assert(self.ports_view().contains(q) == before.ports_view().contains(q));
                        if spec_port_reaped(old(self).conns(), dead@.take(k1), q) {
                            let i = choose|i: int|
                                0 <= i < dead@.take(k1).len() && old(self).conns().contains_key(
                                    #[trigger] dead@.take(k1)[i],
                                ) && old(self).conns()[dead@.take(k1)[i]] == q;
                            if i < k {
                                assert(dead@.take(k as int)[i] == dead@.take(k1)[i]);
                                assert(spec_port_reaped(
                                    old(self).conns(),
                                    dead@.take(k as int),
                                    q,
                                ));
                            } else {
                                assert(dead@.take(k1)[i] == h);
                                assert(false);
                            }
                        }
                        if spec_port_reaped(old(self).conns(), dead@.take(k as int), q) {
                            let i = choose|i: int|
                                0 <= i < dead@.take(k as int).len() && old(
                                    self,
                                ).conns().contains_key(#[trigger] dead@.take(k as int)[i]) && old(
                                    self,
                                ).conns()[dead@.take(k as int)[i]] == q;
                            assert(dead@.take(k1)[i] == dead@.take(k as int)[i]);
                            assert(old(self).conns().contains_key(dead@.take(k1)[i])
                                && old(self).conns()[dead@.take(k1)[i]] == q);
                            assert(spec_port_reaped(old(self).conns(), dead@.take(k1), q));
                        }
                    }
                }
            }
            k = k + 1;
        }
        proof {
            assert(dead@.take(dead@.len() as int) =~= dead@);
        }
    }
}

/// The connections the bridge scan sees this iteration: the already-live
/// ones and, after them, the one admitted this iteration, if any.
pub open spec fn spec_entered(
    socks: Seq<(u64, VirtualSocket)>,
    accepted: Option<(u64, VirtualSocket)>,
) -> Seq<(u64, VirtualSocket)> {
    match accepted {
        Some(nc) => socks.push(nc),
        None => socks,
    }
}

/// The engine state the teardown of `dead` leaves behind, relative to the
/// table `conns` and the outstanding set `ports` it started from: the dead
/// handles' entries are gone, their ports are free, nothing else moved.
pub open spec fn spec_after_teardown(
    conns: Map<u64, u16>,
    ports: Set<u16>,
    dead: Seq<u64>,
    e: Engine,
) -> bool {
    &&& forall|h: u64|
        #[trigger] e.conns().contains_key(h) <==> (conns.contains_key(h) && !dead.contains(h))
    &&& forall|h: u64| #[trigger] e.conns().contains_key(h) ==> e.conns()[h] == conns[h]
    &&& forall|p: u16|
        #[trigger] e.ports_view().contains(p) <==> (ports.contains(p) && !spec_port_reaped(
            conns,
            dead,
            p,
        ))
}

/// The handles the bridge scan lists for removal, in scan order: those
/// whose step does not report the session alive.
pub open spec fn spec_dead_list(
    socks: Seq<(u64, VirtualSocket)>,
    events: Seq<(WriteOutcome, ReadOutcome)>,
) -> Seq<u64>
    decreases socks.len(),
{
    if socks.len() == 0 {
        Seq::<u64>::empty()
    } else {
        let k = socks.len() - 1;
        let prefix = spec_dead_list(socks.drop_last(), events.drop_last());
        if spec_entry_dead(socks[k].1@, events[k]) {
            prefix.push(socks[k].0)
        } else {
            prefix
        }
    }
}

/// The bridge scan: one bridge step for every live connection, in order,
/// reading the table never mutating it — the handles of the sessions that
/// ended are only collected, for the teardown that follows the scan.
///
/// `socks` pairs each handle with its socket's observed state; `events`
/// gives, index-aligned, the outcomes of the one write and the one read
/// attempted against that connection's real stream.  Returns the stepped
/// sockets, order and pairing kept, and the pending-removal list.
pub fn step_connections(
    socks: Vec<(u64, VirtualSocket)>,
    events: &Vec<(WriteOutcome, ReadOutcome)>,
) -> (r: (Vec<(u64, VirtualSocket)>, Vec<u64>))
    requires
        socks@.len() == events@.len(),
        forall|i: int|
            0 <= i < socks@.len() ==> ((#[trigger] events@[i]).0 matches WriteOutcome::Wrote(n)
                ==> n <= socks@[i].1@.inbound.len()),
        forall|i: int|
            0 <= i < socks@.len() ==> ((#[trigger] events@[i]).1 matches ReadOutcome::Data(d)
                ==> d@.len() <= socks@[i].1@.send_space),
    ensures
        r.0@.len() == socks@.len(),
        forall|i: int| 0 <= i < socks@.len() ==> (#[trigger] r.0@[i]).0 == socks@[i].0,
        forall|i: int|
            0 <= i < socks@.len() ==> (#[trigger] r.0@[i]).1@ == spec_bridge_state(
                socks@[i].1@,
                events@[i].0,
                events@[i].1,
            ),
        r.1@ == spec_dead_list(socks@, events@),
{
    let ghost orig = socks@;
    let mut rest = socks;
    let mut stepped: Vec<(u64, VirtualSocket)> = Vec::new();
    let mut dead: Vec<u64> = Vec::new();
    while rest.len() > 0
        invariant
            orig.len() == events@.len(),
            stepped@.len() + rest@.len() == orig.len(),
            rest@ == orig.skip(stepped@.len() as int),
            forall|i: int|
                0 <= i < orig.len() ==> ((#[trigger] events@[i]).0
                    matches WriteOutcome::Wrote(n) ==> n <= orig[i].1@.inbound.len()),
            forall|i: int|
                0 <= i < orig.len() ==> ((#[trigger] events@[i]).1 matches ReadOutcome::Data(d)
                    ==> d@.len() <= orig[i].1@.send_space),
            forall|i: int| 0 <= i < stepped@.len() ==> (#[trigger] stepped@[i]).0 == orig[i].0,
            forall|i: int|
                0 <= i < stepped@.len() ==> (#[trigger] stepped@[i]).1@ == spec_bridge_state(
                    orig[i].1@,
                    events@[i].0,
                    events@[i].1,
                ),
            dead@ == spec_dead_list(
                orig.take(stepped@.len() as int),
                events@.take(stepped@.len() as int),
            ),
        decreases rest@.len(),
    {
        let k = stepped.len();
        proof {
            assert(rest@[0] == orig.skip(k as int)[0]);
            assert(orig.skip(k as int)[0] == orig[k as int]);
        }
        let (h, mut vs) = rest.remove(0);
        proof {
            assert(rest@ =~= orig.skip(k as int + 1));
            assert(h == orig[k as int].0 && vs == orig[k as int].1);
        }
        let ev = &events[k];
        let verdict = bridge_step(&mut vs, ev.0, &ev.1);
        let alive = match verdict {
            Ok(true) => true,
            _ => false,
        };
        if !alive {
            dead.push(h);
        }
        stepped.push((h, vs));
        proof {
            let k1 = k as int + 1;
            assert(orig.take(k1).drop_last() =~= orig.take(k as int));
            assert(events@.take(k1).drop_last() =~= events@.take(k as int));
            assert(orig.take(k1)[k1 - 1] == orig[k as int]);
            assert(events@.take(k1)[k1 - 1] == events@[k as int]);
            assert(dead@ == spec_dead_list(orig.take(k1), events@.take(k1)));
        }
    }
    proof {
        assert(orig.take(orig.len() as int) =~= orig);
        assert(events@.take(events@.len() as int) =~= events@);
    }
    (stepped, dead)
}

/// Some scanned connection carries handle `x`.
pub open spec fn spec_handle_among(socks: Seq<(u64, VirtualSocket)>, x: u64) -> bool {
    exists|j: int| 0 <= j < socks.len() && (#[trigger] socks[j]).0 == x
}

/// Every handle the bridge scan lists for removal is the handle of one of
/// the scanned connections, and, when no two scanned connections share a
/// handle, no handle is listed twice.
pub proof fn lemma_dead_list_handles(
    socks: Seq<(u64, VirtualSocket)>,
    events: Seq<(WriteOutcome, ReadOutcome)>,
)
    ensures
        forall|i: int|
            0 <= i < spec_dead_list(socks, events).len() ==> spec_handle_among(
                socks,
                #[trigger] spec_dead_list(socks, events)[i],
            ),
        (forall|a: int, b: int|
            0 <= a < b < socks.len() ==> (#[trigger] socks[a]).0 != (#[trigger] socks[b]).0)
            ==> (forall|a: int, b: int|
            0 <= a < b < spec_dead_list(socks, events).len() ==> #[trigger] spec_dead_list(
                socks,
                events,
            )[a] != #[trigger] spec_dead_list(socks, events)[b]),
    decreases socks.len(),
{
    if socks.len() > 0 {
        let k = socks.len() - 1;
        let shorter = socks.drop_last();
        lemma_dead_list_handles(shorter, events.drop_last());
        let prefix = spec_dead_list(shorter, events.drop_last());
        let whole = spec_dead_list(socks, events);
        assert forall|i: int| 0 <= i < whole.len() implies spec_handle_among(
            socks,
            #[trigger] whole[i],
        ) by {
            if i < prefix.len() {
                assert(spec_handle_among(shorter, prefix[i]));
                let j = choose|j: int|
                    0 <= j < shorter.len() && (#[trigger] shorter[j]).0 == prefix[i];
                assert((socks[j]).0 == whole[i]);
            } else {
                assert(whole[i] == (socks[k]).0);
            }
        }
        if forall|a: int, b: int|
            0 <= a < b < socks.len() ==> (#[trigger] socks[a]).0 != (#[trigger] socks[b]).0 {
            assert forall|a: int, b: int|
                0 <= a < b < shorter.len() implies (#[trigger] shorter[a]).0 != (
            #[trigger] shorter[b]).0 by {
                assert((socks[a]).0 != (socks[b]).0);
            }
            assert forall|a: int, b: int| 0 <= a < b < whole.len() implies #[trigger] whole[a]
                != #[trigger] whole[b] by {
                if b < prefix.len() {
                    assert(prefix[a] != prefix[b]);
                } else {
                    assert(spec_handle_among(shorter, prefix[a]));
                    let j = choose|j: int|
                        0 <= j < shorter.len() && (#[trigger] shorter[j]).0 == prefix[a];
                    assert((socks[j]).0 != (socks[k]).0);
                }
            }
        }
    }
}

/// A connection whose bridge step ends its session is always on the
/// pending-removal list — so, by the teardown that closes the iteration, a
/// session reported dead is fully torn down within that same iteration.
pub proof fn lemma_dead_entry_is_listed(
    socks: Seq<(u64, VirtualSocket)>,
    events: Seq<(WriteOutcome, ReadOutcome)>,
    i: int,
)
    requires
        socks.len() == events.len(),
        0 <= i < socks.len(),
        spec_entry_dead(socks[i].1@, events[i]),
    ensures
        spec_dead_list(socks, events).contains(socks[i].0),
    decreases socks.len(),
{
    let whole = spec_dead_list(socks, events);
    let k = socks.len() - 1;
    if i == k {
        let prefix = spec_dead_list(socks.drop_last(), events.drop_last());
        assert(whole[prefix.len() as int] == socks[i].0);
    } else {
        lemma_dead_entry_is_listed(socks.drop_last(), events.drop_last(), i);
        let prefix = spec_dead_list(socks.drop_last(), events.drop_last());
        let j = choose|j: int| 0 <= j < prefix.len() && prefix[j] == socks[i].0;
        assert(whole[j] == socks[i].0);
    }
}

/// A connection whose bridge step reports its session alive is never on the
/// pending-removal list, provided no two scanned connections share a
/// handle — so the teardown that closes the iteration leaves it untouched.
pub proof fn lemma_live_entry_not_listed(
    socks: Seq<(u64, VirtualSocket)>,
    events: Seq<(WriteOutcome, ReadOutcome)>,
    i: int,
)
    requires
        socks.len() == events.len(),
        0 <= i < socks.len(),
        !spec_entry_dead(socks[i].1@, events[i]),
        forall|a: int, b: int|
            0 <= a < b < socks.len() ==> (#[trigger] socks[a]).0 != (#[trigger] socks[b]).0,
    ensures
        !spec_dead_list(socks, events).contains(socks[i].0),
    decreases socks.len(),
{
    let whole = spec_dead_list(socks, events);
    let k = socks.len() - 1;
    let shorter = socks.drop_last();
    let prefix = spec_dead_list(shorter, events.drop_last());
    lemma_dead_list_handles(shorter, events.drop_last());
    if i == k {
        if whole.contains(socks[i].0) {
            let j = choose|j: int| 0 <= j < whole.len() && whole[j] == socks[i].0;
            assert(j < prefix.len() && prefix[j] == socks[i].0);
            assert(spec_handle_among(shorter, prefix[j]));
            let m = choose|m: int|
                0 <= m < shorter.len() && (#[trigger] shorter[m]).0 == prefix[j];
            assert(socks[m].0 != socks[k].0);
        }
    } else {
        assert forall|a: int, b: int|
            0 <= a < b < shorter.len() implies (#[trigger] shorter[a]).0 != (
        #[trigger] shorter[b]).0 by {
            assert(socks[a].0 != socks[b].0);
        }
        lemma_live_entry_not_listed(shorter, events.drop_last(), i);
        if whole.contains(socks[i].0) {
            let j = choose|j: int| 0 <= j < whole.len() && whole[j] == socks[i].0;
            if j < prefix.len() {
                assert(prefix.contains(socks[i].0));
            } else {
                assert(whole[j] == socks[k].0);
                assert(socks[i].0 != socks[k].0);
            }
        }
    }
}

/// One whole event-loop iteration's bookkeeping, in the fixed order the
/// loop must keep: admit the connection accepted this iteration, if any;
/// give every connection — the new one included — its one bridge step; then
/// tear down every connection whose step ended its session, releasing its
/// port and erasing its table entry in the same iteration.
///
/// Returns the stepped sockets with the pairing kept, the handles torn
/// down, and the port allocated for the admitted connection, if any.
pub fn run_iteration(
    engine: &mut Engine,
    socks: Vec<(u64, VirtualSocket)>,
    accepted: Option<(u64, VirtualSocket)>,
    events: &Vec<(WriteOutcome, ReadOutcome)>,
) -> (r: (Vec<(u64, VirtualSocket)>, Vec<u64>, Option<u16>))
    requires
        old(engine).wf(),
        forall|a: int, b: int| 0 <= a < b < socks@.len() ==> socks@[a].0 != socks@[b].0,
        forall|i: int|
            0 <= i < socks@.len() ==> old(engine).conns().contains_key(
                (#[trigger] socks@[i]).0,
            ),
        accepted matches Some(nc) ==> !old(engine).conns().contains_key(nc.0) && old(
            engine,
        ).ports_view().len() < EPHEMERAL_SPAN as nat && (forall|i: int|
            0 <= i < socks@.len() ==> (#[trigger] socks@[i]).0 != nc.0),
        events@.len() == socks@.len() + (if accepted is Some {
            1int
        } else {
            0int
        }),
        forall|i: int|
            0 <= i < events@.len() ==> ((#[trigger] events@[i]).0 matches WriteOutcome::Wrote(n)
                ==> n <= spec_entered(socks@, accepted)[i].1@.inbound.len()),
        forall|i: int|
            0 <= i < events@.len() ==> ((#[trigger] events@[i]).1 matches ReadOutcome::Data(d)
                ==> d@.len() <= spec_entered(socks@, accepted)[i].1@.send_space),
    ensures
        final(engine).wf(),
        ({
            let entered = spec_entered(socks@, accepted);
            let dead = spec_dead_list(entered, events@);
            &&& r.1@ == dead
            &&& r.0@.len() == entered.len()
            &&& forall|i: int|
                0 <= i < entered.len() ==> (#[trigger] r.0@[i]).0 == entered[i].0
            &&& forall|i: int|
                0 <= i < entered.len() ==> (#[trigger] r.0@[i]).1@ == spec_bridge_state(
                    entered[i].1@,
                    events@[i].0,
                    events@[i].1,
                )
            &&& match (accepted, r.2) {
                (Some(nc), Some(port)) => {
                    &&& !old(engine).ports_view().contains(port)
                    &&& spec_after_teardown(
                        old(engine).conns().insert(nc.0, port),
                        old(engine).ports_view().insert(port),
                        dead,
                        *final(engine),
                    )
                },
                (None, None) => spec_after_teardown(
                    old(engine).conns(),
                    old(engine).ports_view(),
                    dead,
                    *final(engine),
                ),
                _ => false,
            }
        }),
{
    let ghost socks0 = socks@;
    let ghost acc0 = accepted;
    let mut all = socks;
    let mut allocated: Option<u16> = None;
    match accepted {
        Some((handle, vs)) => {
            let port = engine.admit_connection(handle);
            allocated = Some(port);
            all.push((handle, vs));
        },
        None => (),
    }
    let ghost entered = all@;
    let ghost mid = *engine;
    proof {
        assert(entered =~= spec_entered(socks0, acc0));
        assert forall|a: int, b: int| 0 <= a < b < entered.len() implies entered[a].0
            != entered[b].0 by {
            if b < socks0.len() {
            } else {
                assert(entered[a].0 == socks0[a].0);
            }
        }
        assert forall|i: int|
            0 <= i < entered.len() implies mid.conns().contains_key(
            (#[trigger] entered[i]).0,
        ) by {
            if i < socks0.len() {
                assert(old(engine).conns().contains_key(socks0[i].0));
            }
        }
    }
    let (stepped, dead) = step_connections(all, events);
    proof {
        lemma_dead_list_handles(entered, events@);
        assert forall|i: int|
            0 <= i < dead@.len() implies mid.conns().contains_key(#[trigger] dead@[i]) by {
            assert(spec_handle_among(entered, dead@[i]));
            let j = choose|j: int|
                0 <= j < entered.len() && (#[trigger] entered[j]).0 == dead@[i];
            assert(mid.conns().contains_key((entered[j]).0));
        }
    }
    engine.reap_all(&dead);
    (stepped, dead, allocated)
}

/// Double-reap safety, over the teardown's own effect: once a connection is
/// reaped, its port is no longer outstanding — so the allocator may hand it
/// out again at once — and its handle is no longer tabled, so no later
/// bridge scan pairs it.
pub proof fn lemma_reap_frees_port_and_entry(conns: Map<u64, u16>, ports: Set<u16>, h: u64)
    requires
        conns.contains_key(h),
    ensures
        !ports.remove(conns[h]).contains(conns[h]),
        !conns.remove(h).contains_key(h),
{
}

} // verus!
