//! Ephemeral source ports for virtual-side connections.
//!
//! Every virtual TCP session the proxy opens toward the forward peer needs a
//! locally unique source port, drawn from a private pool distinct from any
//! port the operating system hands out.  The allocator records which ports
//! are outstanding and guarantees that no two simultaneously active sessions
//! ever share one.

use vstd::prelude::*;
use std::collections::HashSet;

verus! {

broadcast use vstd::std_specs::hash::group_hash_axioms;

/// First port of the private ephemeral range.
pub const EPHEMERAL_BASE: u16 = 49152;

/// Number of ports in the private ephemeral range.
pub const EPHEMERAL_SPAN: u16 = 16383;

/// Relies on `rand::random`: draws a value of `T` from the thread-local
/// generator.  Nothing is promised of the value.
pub assume_specification<T>[ rand::random::<T> ]() -> (r: T)
    where
        rand::distributions::Standard: rand::distributions::Distribution<T>,
;

/// Tracks the set of currently outstanding ephemeral ports.
pub struct PortAlloc {
    active: HashSet<u16>,
}

impl View for PortAlloc {
    type V = Set<u16>;

    closed spec fn view(&self) -> Set<u16> {
        self.active@
    }
}

/// The ports of the ephemeral range below offset `k`:
/// `{ EPHEMERAL_BASE, ..., EPHEMERAL_BASE + k - 1 }`.
pub open spec fn port_range_prefix(k: int) -> Set<u16> {
    Set::new(|p: u16| EPHEMERAL_BASE <= p && (p as int) < EPHEMERAL_BASE + k)
}

proof fn lemma_port_range_prefix_len(k: int)
    requires
        0 <= k <= EPHEMERAL_SPAN,
    ensures
        port_range_prefix(k).finite(),
        port_range_prefix(k).len() == k,
    decreases k,
{
    if k == 0 {
        assert(port_range_prefix(0) =~= Set::<u16>::empty());
    } else {
        lemma_port_range_prefix_len(k - 1);
        let last = (EPHEMERAL_BASE + k - 1) as u16;
        assert(port_range_prefix(k) =~= port_range_prefix(k - 1).insert(last));
        assert(!port_range_prefix(k - 1).contains(last));
    }
}

impl PortAlloc {
    /// The set of outstanding ports is finite, as it is for every allocator
    /// built and evolved through this interface.
    pub open spec fn wf(&self) -> bool {
        self@.finite()
    }

    pub fn new() -> (a: PortAlloc)
        ensures
            a@ == Set::<u16>::empty(),
            a.wf(),
    {
        PortAlloc { active: HashSet::new() }
    }

    /// Picks a port of the ephemeral range that is not outstanding: first by
    /// a bounded number of random draws, then, should all of those collide,
    /// by scanning the range, which the precondition guarantees is not
    /// exhausted.
    fn pick_fresh_port(&self) -> (port: u16)
        requires
            self.wf(),
            self@.len() < EPHEMERAL_SPAN as nat,
        ensures
            !self@.contains(port),
            EPHEMERAL_BASE <= port < EPHEMERAL_BASE + EPHEMERAL_SPAN,
    {
        let mut tries: u32 = 0;
        while tries < 64
            decreases 64 - tries,
        {
            let r: u16 = rand::random::<u16>();
            let port: u16 = r % EPHEMERAL_SPAN + EPHEMERAL_BASE;
            if !self.active.contains(&port) {
                return port;
            }
            tries = tries + 1;
        }
        let mut i: u16 = 0;
        while i < EPHEMERAL_SPAN
            invariant
                i <= EPHEMERAL_SPAN,
                forall|j: u16| j < i ==> #[trigger] self@.contains((EPHEMERAL_BASE + j) as u16),
            decreases EPHEMERAL_SPAN - i,
        {
            let candidate: u16 = EPHEMERAL_BASE + i;
            if !self.active.contains(&candidate) {
                return candidate;
            }
            i = i + 1;
        }
        proof {
            lemma_port_range_prefix_len(EPHEMERAL_SPAN as int);
            assert forall|p: u16| port_range_prefix(EPHEMERAL_SPAN as int).contains(p)
                implies self@.contains(p) by {
                let j = (p - EPHEMERAL_BASE) as u16;
                assert(self@.contains((EPHEMERAL_BASE + j) as u16));
            }
            vstd::set_lib::lemma_len_subset(
                port_range_prefix(EPHEMERAL_SPAN as int),
                self@,
            );
        }
        vstd::pervasive::unreached()
    }

    /// Issues a port that no currently active session holds.  The returned
    /// port is outstanding from this call on, so a later call cannot return
    /// it again before it is released.
    pub fn get(&mut self) -> (port: u16)
        requires
            old(self).wf(),
            old(self)@.len() < EPHEMERAL_SPAN as nat,
        ensures
            final(self).wf(),
            !old(self)@.contains(port),
            final(self)@ == old(self)@.insert(port),
            EPHEMERAL_BASE <= port < EPHEMERAL_BASE + EPHEMERAL_SPAN,
    {
        let port = self.pick_fresh_port();
        self.active.insert(port);
        port
    }

    /// Releases an outstanding port.  Releasing a port that is not
    /// outstanding is an internal double-free, which the precondition rules
    /// out; an unverified caller must treat that case as fatal.
    pub fn unget(&mut self, port: u16)
        requires
            old(self).wf(),
            old(self)@.contains(port),
        ensures
            final(self).wf(),
            final(self)@ == old(self)@.remove(port),
    {
        self.active.remove(&port);
    }

    /// Whether `port` is currently issued to some session.
    pub fn is_outstanding(&self, port: u16) -> (r: bool)
        ensures
            r == self@.contains(port),
    {
        self.active.contains(&port)
    }

    /// How many ports are currently outstanding.
    pub fn outstanding(&self) -> (n: usize)
        requires
            self.wf(),
        ensures
            n == self@.len(),
    {
        self.active.len()
    }
}

/// Two allocations with no release in between never hand out the same port:
/// the first port becomes outstanding at once, and an allocation never
/// returns an outstanding port.
pub proof fn lemma_consecutive_allocations_distinct(held: Set<u16>, first: u16, second: u16)
    requires
        !held.contains(first),
        !held.insert(first).contains(second),
    ensures
        first != second,
{
}

} // verus!
