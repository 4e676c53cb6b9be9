use portfwd::bridge::{
    bridge_step, read_closes, read_failed, read_filled, session_alive, write_consumed,
    write_failed, BridgeError, ReadOutcome, WriteOutcome,
};
use portfwd::vsock::VirtualSocket;

fn vsock(active: bool, may_send: bool, inbound: &[u8], send_space: usize) -> VirtualSocket {
    VirtualSocket {
        active,
        may_send,
        inbound: inbound.to_vec(),
        send_space,
        outbound: Vec::new(),
    }
}

#[test]
fn drain_consumes_written_prefix_only() {
    let mut vs = vsock(true, true, b"HELLO", 0);
    let r = bridge_step(&mut vs, WriteOutcome::Wrote(2), &ReadOutcome::WouldBlock);
    assert_eq!(r, Ok(true));
    assert_eq!(vs.inbound, b"LLO".to_vec());
}

#[test]
fn backpressure_loses_no_bytes() {
    // A blocked write leaves the queue untouched; the next call delivers
    // from the correct offset.
    let mut vs = vsock(true, true, b"HELLO", 0);
    let r = bridge_step(&mut vs, WriteOutcome::WouldBlock, &ReadOutcome::WouldBlock);
    assert_eq!(r, Ok(true));
    assert_eq!(vs.inbound, b"HELLO".to_vec());
    let r = bridge_step(&mut vs, WriteOutcome::Wrote(3), &ReadOutcome::WouldBlock);
    assert_eq!(r, Ok(true));
    assert_eq!(vs.inbound, b"LO".to_vec());
    let r = bridge_step(&mut vs, WriteOutcome::Wrote(2), &ReadOutcome::WouldBlock);
    assert_eq!(r, Ok(true));
    assert!(vs.inbound.is_empty());
}

#[test]
fn half_close_drains_before_death() {
    // 100 queued inbound bytes on a socket that is no longer active: the
    // session must be reported alive until all 100 are written out, and
    // dead only once the queue is empty.
    let queued = vec![0x55u8; 100];
    let mut vs = vsock(false, false, &queued, 0);
    let r = bridge_step(&mut vs, WriteOutcome::WouldBlock, &ReadOutcome::WouldBlock);
    assert_eq!(r, Ok(true));
    let r = bridge_step(&mut vs, WriteOutcome::Wrote(60), &ReadOutcome::WouldBlock);
    assert_eq!(r, Ok(true), "40 bytes still queued: alive");
    assert_eq!(vs.recv_queue(), 40);
    let r = bridge_step(&mut vs, WriteOutcome::Wrote(40), &ReadOutcome::WouldBlock);
    assert_eq!(r, Ok(false), "queue drained and inactive: dead");
    assert_eq!(vs.recv_queue(), 0);
    assert!(!vs.is_active());
}

#[test]
fn peer_eof_begins_graceful_half_close() {
    let mut vs = vsock(true, true, b"", 4096);
    let r = bridge_step(&mut vs, WriteOutcome::WouldBlock, &ReadOutcome::Eof);
    assert_eq!(r, Ok(true), "eof is not an error and the session stays up");
    assert!(!vs.may_send, "transmit half closed");
    assert!(vs.is_active());
}

#[test]
fn read_data_joins_send_window() {
    let mut vs = vsock(true, true, b"", 10);
    let r = bridge_step(
        &mut vs,
        WriteOutcome::WouldBlock,
        &ReadOutcome::Data(b"PING".to_vec()),
    );
    assert_eq!(r, Ok(true));
    assert_eq!(vs.outbound, b"PING".to_vec());
    assert_eq!(vs.send_space, 6);
}

#[test]
fn write_error_aborts_and_skips_the_read_half() {
    let mut vs = vsock(true, true, b"QUEUED", 10);
    let r = bridge_step(
        &mut vs,
        WriteOutcome::Failed,
        &ReadOutcome::Data(b"LATE".to_vec()),
    );
    assert_eq!(r, Err(BridgeError::Write));
    assert!(!vs.is_active(), "aborted: hard reset");
    assert!(vs.inbound.is_empty());
    assert!(vs.outbound.is_empty(), "read half was never attempted");
}

#[test]
fn read_error_aborts_after_drain() {
    let mut vs = vsock(true, true, b"AB", 10);
    let r = bridge_step(&mut vs, WriteOutcome::Wrote(2), &ReadOutcome::Failed);
    assert_eq!(r, Err(BridgeError::Read));
    assert!(!vs.is_active());
}

#[test]
fn read_error_with_closed_window_is_ignored() {
    // The fill half never ran, so its outcome cannot fail the step.
    let mut vs = vsock(true, false, b"", 10);
    let r = bridge_step(&mut vs, WriteOutcome::WouldBlock, &ReadOutcome::Failed);
    assert_eq!(r, Ok(true));
}

#[test]
fn outcome_helpers_mirror_the_decisions() {
    assert_eq!(write_consumed(&WriteOutcome::Wrote(7)), 7);
    assert_eq!(write_consumed(&WriteOutcome::WouldBlock), 0);
    assert_eq!(write_consumed(&WriteOutcome::Failed), 0);
    assert!(write_failed(&WriteOutcome::Failed));
    assert!(!write_failed(&WriteOutcome::WouldBlock));
    assert_eq!(read_filled(&ReadOutcome::Data(vec![1, 2, 3])), 3);
    assert_eq!(read_filled(&ReadOutcome::Eof), 0);
    assert!(read_closes(&ReadOutcome::Eof));
    assert!(!read_closes(&ReadOutcome::WouldBlock));
    assert!(read_failed(&ReadOutcome::Failed));
    assert!(!read_failed(&ReadOutcome::Eof));
    assert!(session_alive(true, 0));
    assert!(session_alive(false, 1));
    assert!(!session_alive(false, 0));
}
