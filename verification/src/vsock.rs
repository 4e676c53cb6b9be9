//! Model of a virtual TCP socket as the proxy observes it.
//!
//! The protocol stack owns the real socket objects; the proxy core only ever
//! reads a fixed, small interface of them: whether the session is still
//! active, which reassembled inbound bytes are queued, whether the transmit
//! half is open and how much send-window capacity is free.  `VirtualSocket`
//! captures exactly those observations as plain values, so the bridge and
//! the event-loop bookkeeping can be verified over them.  The unverified rim
//! of the program snapshots a real socket into this type and applies the
//! actions the verified code decides on back to the real socket.

use vstd::prelude::*;

verus! {

/// One virtual TCP endpoint, reduced to what the proxy bridge reads and
/// writes of it.
///
/// - `active`: the session has not completed full bilateral closure.
/// - `may_send`: the transmit half is open (no FIN sent yet).
/// - `inbound`: bytes reassembled by the stack and not yet consumed by the
///   bridge; this queue is the system's only inbound buffer.
/// - `send_space`: free capacity of the transmit buffer this round.
/// - `outbound`: bytes the bridge has handed to the stack for delivery.
pub struct VirtualSocket {
    pub active: bool,
    pub may_send: bool,
    pub inbound: Vec<u8>,
    pub send_space: usize,
    pub outbound: Vec<u8>,
}

/// The mathematical image of a `VirtualSocket`: the same observations with
/// the byte queues as sequences.
#[verifier::ext_equal]
pub ghost struct VsockView {
    pub active: bool,
    pub may_send: bool,
    pub inbound: Seq<u8>,
    pub send_space: nat,
    pub outbound: Seq<u8>,
}

impl View for VirtualSocket {
    type V = VsockView;

    open spec fn view(&self) -> VsockView {
        VsockView {
            active: self.active,
            may_send: self.may_send,
            inbound: self.inbound@,
            send_space: self.send_space as nat,
            outbound: self.outbound@,
        }
    }
}

impl VirtualSocket {
    /// Inbound bytes are queued, so a receive call can hand some out.
    pub open spec fn spec_can_recv(self) -> bool {
        self.inbound@.len() > 0
    }

    /// The transmit half is open and the transmit buffer has room.
    pub open spec fn spec_can_send(self) -> bool {
        self.may_send && self.send_space > 0
    }

    /// The session still matters to the proxy: either it has not fully
    /// closed, or undelivered inbound bytes remain to be flushed.
    pub open spec fn spec_session_alive(self) -> bool {
        self.active || self.inbound@.len() > 0
    }

    pub fn can_recv(&self) -> (r: bool)
        ensures
            r == self.spec_can_recv(),
    {
        self.inbound.len() > 0
    }

    pub fn can_send(&self) -> (r: bool)
        ensures
            r == self.spec_can_send(),
    {
        self.may_send && self.send_space > 0
    }

    pub fn is_active(&self) -> (r: bool)
        ensures
            r == self.active,
    {
        self.active
    }

    /// Count of queued-but-unconsumed inbound bytes.
    pub fn recv_queue(&self) -> (n: usize)
        ensures
            n == self.inbound@.len(),
    {
        self.inbound.len()
    }

    /// Dequeues the first `n` inbound bytes, exactly the bytes a successful
    /// write to the real stream delivered; the unwritten remainder stays
    /// queued, in order, for a later call.
    pub fn consume_inbound(&mut self, n: usize)
        requires
            n <= old(self).inbound@.len(),
        ensures
            final(self).inbound@ == old(self).inbound@.skip(n as int),
            final(self).active == old(self).active,
            final(self).may_send == old(self).may_send,
            final(self).send_space == old(self).send_space,
            final(self).outbound == old(self).outbound,
    {
        let mut rest: Vec<u8> = Vec::new();
        let mut j: usize = n;
        while j < self.inbound.len()
            invariant
                n <= j <= self.inbound@.len(),
                rest@ == self.inbound@.subrange(n as int, j as int),
            decreases self.inbound@.len() - j,
        {
            rest.push(self.inbound[j]);
            j = j + 1;
        }
        proof {
            assert(self.inbound@.subrange(n as int, self.inbound@.len() as int)
                =~= self.inbound@.skip(n as int));
        }
        self.inbound = rest;
    }

    /// Enqueues `data` into the transmit buffer: the bytes just read from
    /// the real stream are appended to what the stack will deliver, and the
    /// free window shrinks by their number.
    pub fn fill_outbound(&mut self, data: &Vec<u8>)
        requires
            old(self).may_send,
            data@.len() <= old(self).send_space,
        ensures
            final(self).outbound@ == old(self).outbound@ + data@,
            final(self).send_space == old(self).send_space - data@.len(),
            final(self).active == old(self).active,
            final(self).may_send == old(self).may_send,
            final(self).inbound == old(self).inbound,
    {
        let mut k: usize = 0;
        while k < data.len()
            invariant
                k <= data@.len() <= old(self).send_space,
                self.outbound@ == old(self).outbound@ + data@.subrange(0, k as int),
                self.active == old(self).active,
                self.may_send == old(self).may_send,
                self.inbound == old(self).inbound,
                self.send_space == old(self).send_space,
            decreases data@.len() - k,
        {
            self.outbound.push(data[k]);
            k = k + 1;
        }
        proof {
            assert(data@.subrange(0, data@.len() as int) =~= data@);
        }
        self.send_space = self.send_space - data.len();
    }

    /// Graceful half-close: ends the transmit half (FIN) without discarding
    /// unread inbound data.  The session may stay active until the peer
    /// closes its half too.
    pub fn close(&mut self)
        ensures
            final(self).may_send == false,
            final(self).active == old(self).active,
            final(self).inbound == old(self).inbound,
            final(self).send_space == old(self).send_space,
            final(self).outbound == old(self).outbound,
    {
        self.may_send = false;
    }

    /// Hard termination (reset): the session ends at once and both queues
    /// are discarded.
    pub fn abort(&mut self)
        ensures
            final(self).active == false,
            final(self).may_send == false,
            final(self).inbound@ == Seq::<u8>::empty(),
            final(self).send_space == 0,
            final(self).outbound@ == Seq::<u8>::empty(),
    {
        self.active = false;
        self.may_send = false;
        self.inbound = Vec::new();
        self.send_space = 0;
        self.outbound = Vec::new();
    }
}

} // verus!
