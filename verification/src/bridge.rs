//! The proxy bridge: one bidirectional data-moving step per connection.
//!
//! Each event-loop iteration gives every connection exactly one bridge step.
//! A step first drains queued inbound bytes toward the real stream, then
//! fills the virtual socket's send window from the real stream, applying
//! backpressure symmetrically: a would-block on either side simply leaves
//! the bytes where they are for the next step.  A real I/O failure aborts
//! the virtual socket (hard reset) before the error surfaces, and an
//! end-of-file on the real stream begins a graceful half-close.
//!
//! The real stream itself lives outside this crate; a step consumes the
//! *outcomes* of the one write attempt and the one read attempt made against
//! it, as plain values.

use vstd::prelude::*;
use crate::vsock::{VirtualSocket, VsockView};

verus! {

/// Outcome of the single write attempt against the real stream, offered the
/// queued inbound bytes.
#[derive(Clone, Copy, Debug)]
pub enum WriteOutcome {
    /// The stream accepted this many of the offered bytes.
    Wrote(usize),
    /// The stream would block; nothing was written and nothing is lost.
    WouldBlock,
    /// A genuine I/O error, to be escalated.
    Failed,
}

/// Outcome of the single read attempt against the real stream, into the
/// virtual socket's free send window.
#[derive(Debug)]
pub enum ReadOutcome {
    /// The stream yielded these bytes, at most the free window's worth.
    Data(Vec<u8>),
    /// The stream reported end-of-file: the real peer closed its side.
    Eof,
    /// The stream would block; nothing was read, the session goes on.
    WouldBlock,
    /// A genuine I/O error, to be escalated.
    Failed,
}

/// Which half of a bridge step hit a real I/O error.
#[derive(Clone, Copy, Debug, PartialEq, Eq, Structural)]
pub enum BridgeError {
    /// Writing inbound bytes to the real stream failed.
    Write,
    /// Reading from the real stream failed.
    Read,
}

/// Whether the drain half runs at all: only when inbound bytes are queued.
pub open spec fn spec_drain_attempted(v: VsockView) -> bool {
    v.inbound.len() > 0
}

/// The drain half fails exactly when it ran and the write errored.
pub open spec fn spec_drain_fails(v: VsockView, wr: WriteOutcome) -> bool {
    spec_drain_attempted(v) && wr is Failed
}

/// How many queued bytes the drain half consumed.
pub open spec fn spec_drained_len(v: VsockView, wr: WriteOutcome) -> int {
    if spec_drain_attempted(v) {
        match wr {
            WriteOutcome::Wrote(n) => n as int,
            _ => 0,
        }
    } else {
        0
    }
}

/// The bytes the drain half delivered to the real stream: the first
/// `spec_drained_len` of the queue.
pub open spec fn spec_drained_bytes(v: VsockView, wr: WriteOutcome) -> Seq<u8> {
    v.inbound.take(spec_drained_len(v, wr))
}

/// State after the drain half: the delivered prefix leaves the queue, the
/// unwritten remainder stays, in order.
pub open spec fn spec_drain(v: VsockView, wr: WriteOutcome) -> VsockView {
    VsockView { inbound: v.inbound.skip(spec_drained_len(v, wr)), ..v }
}

/// Whether the fill half runs at all: only when the send window is open.
pub open spec fn spec_fill_attempted(v: VsockView) -> bool {
    v.may_send && v.send_space > 0
}

/// The fill half fails exactly when it ran and the read errored.
pub open spec fn spec_fill_fails(v: VsockView, rd: ReadOutcome) -> bool {
    spec_fill_attempted(v) && rd is Failed
}

/// State after a graceful half-close: the transmit half ends, queued
/// inbound bytes are kept.
pub open spec fn spec_close(v: VsockView) -> VsockView {
    VsockView { may_send: false, ..v }
}

/// State after a hard reset: the session is over and both queues are gone.
pub open spec fn spec_abort(v: VsockView) -> VsockView {
    VsockView {
        active: false,
        may_send: false,
        inbound: Seq::<u8>::empty(),
        send_space: 0,
        outbound: Seq::<u8>::empty(),
    }
}

/// State after the fill half: read bytes join the transmit queue and shrink
/// the window; end-of-file closes the transmit half; a would-block or an
/// error changes nothing here.
pub open spec fn spec_fill(v: VsockView, rd: ReadOutcome) -> VsockView {
    if spec_fill_attempted(v) {
        match rd {
            ReadOutcome::Data(d) => if d@.len() <= v.send_space {
                VsockView {
                    outbound: v.outbound + d@,
                    send_space: (v.send_space - d@.len()) as nat,
                    ..v
                }
            } else {
                v
            },
            ReadOutcome::Eof => spec_close(v),
            ReadOutcome::WouldBlock => v,
            ReadOutcome::Failed => v,
        }
    } else {
        v
    }
}

/// The session still matters after a step: it is not fully closed, or
/// undelivered inbound bytes remain to be flushed.
pub open spec fn spec_alive(v: VsockView) -> bool {
    v.active || v.inbound.len() > 0
}

/// The complete bridge step: drain, then, unless draining failed, fill; an
/// error on either half ends in a hard reset.
pub open spec fn spec_bridge_state(v: VsockView, wr: WriteOutcome, rd: ReadOutcome) -> VsockView {
    let drained = spec_drain(v, wr);
    if spec_drain_fails(v, wr) {
        spec_abort(drained)
    } else if spec_fill_fails(drained, rd) {
        spec_abort(spec_fill(drained, rd))
    } else {
        spec_fill(drained, rd)
    }
}

/// What the step reports to the event loop: the failed half, or whether the
/// session is still alive.
pub open spec fn spec_bridge_report(
    v: VsockView,
    wr: WriteOutcome,
    rd: ReadOutcome,
) -> Result<bool, BridgeError> {
    if spec_drain_fails(v, wr) {
        Err(BridgeError::Write)
    } else if spec_fill_fails(spec_drain(v, wr), rd) {
        Err(BridgeError::Read)
    } else {
        Ok(spec_alive(spec_bridge_state(v, wr, rd)))
    }
}

/// Whether a step on this socket with these real-stream outcomes ends the
/// session for the event loop: it does unless the step reports the session
/// alive — an I/O error and a completed closure alike put the connection on
/// the pending-removal list.
pub open spec fn spec_entry_dead(v: VsockView, ev: (WriteOutcome, ReadOutcome)) -> bool {
    !(spec_bridge_report(v, ev.0, ev.1) matches Ok(true))
}

/// One bridge step for one connection.
///
/// `wr` is the outcome of writing the queued inbound bytes (offered only
/// when some were queued) to the real stream; `rd` is the outcome of reading
/// from the real stream into the free send window (attempted only when the
/// window was open).  Returns whether the session is still alive, or which
/// half hit a real I/O error — in which case the virtual socket has been
/// reset before the error surfaces, and the caller must tear the connection
/// down.
pub fn bridge_step(vs: &mut VirtualSocket, wr: WriteOutcome, rd: &ReadOutcome) -> (r: Result<
    bool,
    BridgeError,
>)
    requires
        wr matches WriteOutcome::Wrote(n) ==> n <= old(vs)@.inbound.len(),
        *rd matches ReadOutcome::Data(d) ==> d@.len() <= old(vs)@.send_space,
    ensures
        final(vs)@ == spec_bridge_state(old(vs)@, wr, *rd),
        r == spec_bridge_report(old(vs)@, wr, *rd),
{
    let mut drain_errored = false;
    if vs.can_recv() {
        match wr {
            WriteOutcome::Wrote(n) => vs.consume_inbound(n),
            WriteOutcome::WouldBlock => (),
            WriteOutcome::Failed => {
                drain_errored = true;
            },
        }
    }
    proof {
        assert(vs@ =~= spec_drain(old(vs)@, wr));
    }
    if drain_errored {
        vs.abort();
        proof {
            assert(vs@ =~= spec_bridge_state(old(vs)@, wr, *rd));
        }
        return Err(BridgeError::Write);
    }
    if vs.can_send() {
        match rd {
            ReadOutcome::Data(d) => {
                vs.fill_outbound(d);
            },
            ReadOutcome::Eof => {
                vs.close();
            },
            ReadOutcome::WouldBlock => (),
            ReadOutcome::Failed => {
                vs.abort();
                proof {
                    assert(vs@ =~= spec_bridge_state(old(vs)@, wr, *rd));
                }
                return Err(BridgeError::Read);
            },
        }
    }
    proof {
        assert(vs@ =~= spec_bridge_state(old(vs)@, wr, *rd));
    }
    Ok(vs.is_active() || vs.recv_queue() > 0)
}

/// How many of the offered bytes the receive callback reports as consumed
/// for a given write outcome: what was written, else none.
pub fn write_consumed(wr: &WriteOutcome) -> (n: usize)
    ensures
        n as int == match *wr {
            WriteOutcome::Wrote(k) => k as int,
            _ => 0,
        },
{
    match wr {
        WriteOutcome::Wrote(k) => *k,
        WriteOutcome::WouldBlock => 0,
        WriteOutcome::Failed => 0,
    }
}

/// Whether a write outcome is a genuine error rather than a would-block.
pub fn write_failed(wr: &WriteOutcome) -> (r: bool)
    ensures
        r == (*wr is Failed),
{
    matches!(*wr, WriteOutcome::Failed)
}

/// How many bytes a read outcome put into the send window.
pub fn read_filled(rd: &ReadOutcome) -> (n: usize)
    ensures
        n as int == match *rd {
            ReadOutcome::Data(d) => d@.len() as int,
            _ => 0,
        },
{
    match rd {
        ReadOutcome::Data(d) => d.len(),
        ReadOutcome::Eof => 0,
        ReadOutcome::WouldBlock => 0,
        ReadOutcome::Failed => 0,
    }
}

/// Whether a read outcome means the real peer closed its side, which calls
/// for a graceful half-close of the virtual socket — not an error.
pub fn read_closes(rd: &ReadOutcome) -> (r: bool)
    ensures
        r == (*rd is Eof),
{
    matches!(*rd, ReadOutcome::Eof)
}

/// Whether a read outcome is a genuine error rather than a would-block.
pub fn read_failed(rd: &ReadOutcome) -> (r: bool)
    ensures
        r == (*rd is Failed),
{
    matches!(*rd, ReadOutcome::Failed)
}

/// The post-step liveness rule on the values an unverified caller reads off
/// a real socket: a session is alive while it is active or bytes remain
/// queued inbound.
pub fn session_alive(active: bool, recv_queue: usize) -> (r: bool)
    ensures
        r == (active || recv_queue > 0),
{
    active || recv_queue > 0
}

/// Half-close draining: while undelivered inbound bytes remain after a
/// step that hit no I/O error, the step reports the session alive — even if
/// the socket itself is no longer active; it reports the session dead only
/// once the queue is empty and the socket inactive.
pub proof fn lemma_half_close_draining(v: VsockView, wr: WriteOutcome, rd: ReadOutcome)
    requires
        !spec_drain_fails(v, wr),
        !spec_fill_fails(spec_drain(v, wr), rd),
    ensures
        spec_bridge_state(v, wr, rd).inbound.len() > 0 ==> spec_bridge_report(v, wr, rd) == Ok::<
            bool,
            BridgeError,
        >(true),
        spec_bridge_report(v, wr, rd) == Ok::<bool, BridgeError>(false) ==> spec_bridge_state(
            v,
            wr,
            rd,
        ).inbound.len() == 0 && !spec_bridge_state(v, wr, rd).active,
{
}

/// Backpressure without loss: a would-block on the write side leaves the
/// whole inbound queue untouched, and a later step whose write moves `n`
/// bytes delivers exactly the first `n` bytes of that queue, the remainder
/// staying queued in order.
pub proof fn lemma_backpressure_no_loss(v: VsockView, n: usize)
    requires
        n <= v.inbound.len(),
    ensures
        spec_drain(v, WriteOutcome::WouldBlock).inbound == v.inbound,
        spec_drained_bytes(spec_drain(v, WriteOutcome::WouldBlock), WriteOutcome::Wrote(n))
            == v.inbound.take(n as int),
        spec_drain(spec_drain(v, WriteOutcome::WouldBlock), WriteOutcome::Wrote(n)).inbound
            == v.inbound.skip(n as int),
        spec_drained_bytes(v, WriteOutcome::Wrote(n)) + spec_drain(
            v,
            WriteOutcome::Wrote(n),
        ).inbound == v.inbound,
{
    let blocked = spec_drain(v, WriteOutcome::WouldBlock);
    assert(blocked.inbound =~= v.inbound);
    assert(blocked.inbound.skip(0) =~= blocked.inbound);
    assert(v.inbound.take(spec_drained_len(v, WriteOutcome::Wrote(n))) + v.inbound.skip(
        spec_drained_len(v, WriteOutcome::Wrote(n)),
    ) =~= v.inbound);
}

} // verus!
