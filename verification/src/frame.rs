//! The frame transport's codec: what crosses the datagram channel.
//!
//! The transport exchanges whole Ethernet frames with the emulator, one
//! frame per datagram message and no header of its own, so the wire image of
//! a frame is exactly its bytes.  The unverified rim does the channel I/O;
//! this module holds the verified compute around it: sizing the transmit
//! buffer the protocol stack fills, and turning the outcome of one
//! non-blocking channel read into "one frame" or "no frame ready".

use vstd::prelude::*;

verus! {

/// Outcome of the single non-blocking read attempt on the receive side of
/// the datagram channel.
#[derive(Clone, Copy, Debug)]
pub enum RecvOutcome {
    /// A datagram of this many bytes landed in the buffer.
    Received(usize),
    /// No datagram is ready; not an error.
    WouldBlock,
    /// A genuine read error; reported but tolerated, the session layer
    /// treats it as transient transport loss.
    Failed,
}

/// What one receive attempt yields: the received datagram's bytes, or
/// nothing — a would-block and a read error both mean "no frame ready",
/// so a receive failure can never stop the event loop.
pub open spec fn spec_receive_frame(buf: Seq<u8>, out: RecvOutcome) -> Option<Seq<u8>> {
    match out {
        RecvOutcome::Received(size) => Some(buf.take(size as int)),
        RecvOutcome::WouldBlock => None,
        RecvOutcome::Failed => None,
    }
}

/// Decides the receive side: given the scratch buffer a channel read filled
/// and the read's outcome, hand the event loop one frame or none.
pub fn receive_frame(buf: Vec<u8>, out: RecvOutcome) -> (r: Option<Vec<u8>>)
    requires
        out matches RecvOutcome::Received(size) ==> size <= buf@.len(),
    ensures
        match r {
            Some(f) => spec_receive_frame(buf@, out) == Some(f@),
            None => spec_receive_frame(buf@, out) is None,
        },
{
    match out {
        RecvOutcome::Received(size) => {
            let ghost whole = buf@;
            let mut frame = buf;
            frame.truncate(size);
            proof {
                assert(frame@ =~= whole.take(size as int));
            }
            Some(frame)
        },
        RecvOutcome::WouldBlock => None,
        RecvOutcome::Failed => None,
    }
}

/// A zeroed transmit buffer of the length the protocol stack asked for; the
/// stack fills it with one frame, and the channel sends it verbatim.
pub fn transmit_buffer(len: usize) -> (b: Vec<u8>)
    ensures
        b@.len() == len,
        forall|i: int| 0 <= i < len ==> b@[i] == 0u8,
{
    let mut b: Vec<u8> = Vec::new();
    let mut k: usize = 0;
    while k < len
        invariant
            k <= len,
            b@.len() == k,
            forall|i: int| 0 <= i < k ==> b@[i] == 0u8,
        decreases len - k,
    {
        b.push(0u8);
        k = k + 1;
    }
    b
}

/// Frame round-trip: a frame is sent as one datagram holding exactly its
/// bytes, so when the channel delivers that datagram intact, the receive
/// side decodes it back byte-for-byte and length-for-length.
pub proof fn lemma_frame_round_trip(f: Seq<u8>)
    requires
        f.len() <= usize::MAX,
    ensures
        spec_receive_frame(f, RecvOutcome::Received(f.len() as usize)) == Some(f),
{
    assert(f.take(f.len() as int) =~= f);
}

} // verus!
