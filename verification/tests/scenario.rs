//! The life of one forwarded connection, iteration by iteration: a client
//! connects, ping and pong cross the bridge, the client closes, and the
//! following iteration tears everything down.

use portfwd::bridge::{ReadOutcome, WriteOutcome};
use portfwd::engine::{run_iteration, Engine};
use portfwd::vsock::VirtualSocket;

#[test]
fn stream_error_tears_down_in_the_same_iteration() {
    let mut engine = Engine::new();
    let fresh = VirtualSocket {
        active: true,
        may_send: true,
        inbound: b"UNDELIVERED".to_vec(),
        send_space: 65535,
        outbound: Vec::new(),
    };
    let events = vec![(WriteOutcome::WouldBlock, ReadOutcome::WouldBlock)];
    let (socks, _, port) = run_iteration(&mut engine, Vec::new(), Some((1, fresh)), &events);
    let port = port.unwrap();

    // The client's stream fails on write: the one connection is reset and
    // reaped in this very iteration; the loop itself is unaffected.
    let events = vec![(WriteOutcome::Failed, ReadOutcome::WouldBlock)];
    let (socks, dead, _) = run_iteration(&mut engine, socks, None, &events);
    assert_eq!(dead, vec![1]);
    assert!(!socks[0].1.is_active(), "hard reset");
    assert!(socks[0].1.inbound.is_empty(), "reset discards the queues");
    assert!(!engine.is_tracked(1));

    // The freed port may be handed straight back out.
    let fresh = VirtualSocket {
        active: true,
        may_send: true,
        inbound: Vec::new(),
        send_space: 65535,
        outbound: Vec::new(),
    };
    let events = vec![(WriteOutcome::WouldBlock, ReadOutcome::WouldBlock)];
    let (_, _, port2) = run_iteration(&mut engine, Vec::new(), Some((2, fresh)), &events);
    let _ = (port, port2);
    assert!(engine.is_tracked(2));
}

#[test]
fn ping_pong_and_teardown_within_one_iteration() {
    let mut engine = Engine::new();

    // Iteration 1: the listener accepts; a virtual connection opens toward
    // the forward peer; the client's "PING" arrives on the real stream and
    // is read into the virtual socket's send window.
    let fresh = VirtualSocket {
        active: true,
        may_send: true,
        inbound: Vec::new(),
        send_space: 65535,
        outbound: Vec::new(),
    };
    let events = vec![(WriteOutcome::WouldBlock, ReadOutcome::Data(b"PING".to_vec()))];
    let (socks, dead, port) = run_iteration(&mut engine, Vec::new(), Some((1, fresh)), &events);
    let port = port.expect("a port was allocated for the admitted connection");
    assert!(dead.is_empty());
    assert!(engine.is_tracked(1));
    assert_eq!(engine.port_of(1), port);
    assert_eq!(socks.len(), 1);
    // The forward peer's side of the stack now has "PING" to deliver.
    assert_eq!(socks[0].1.outbound, b"PING".to_vec());

    // Between iterations the stack's poll delivers "PING" to the peer and
    // brings the peer's "PONG" back into the socket's inbound queue.
    let mut socks = socks;
    socks[0].1.inbound = b"PONG".to_vec();

    // Iteration 2: "PONG" is written out to the client in full.
    let events = vec![(WriteOutcome::Wrote(4), ReadOutcome::WouldBlock)];
    let (socks, dead, none) = run_iteration(&mut engine, socks, None, &events);
    assert!(none.is_none());
    assert!(dead.is_empty());
    assert!(socks[0].1.inbound.is_empty(), "PONG delivered to the client");
    assert!(engine.is_tracked(1));

    // Iteration 3: the client closes its side; the bridge begins the
    // graceful half-close of the virtual socket.
    let events = vec![(WriteOutcome::WouldBlock, ReadOutcome::Eof)];
    let (mut socks, dead, _) = run_iteration(&mut engine, socks, None, &events);
    assert!(dead.is_empty(), "closure is still completing");
    assert!(!socks[0].1.may_send);

    // Between iterations the stack completes bilateral closure.
    socks[0].1.active = false;
    socks[0].1.send_space = 0;

    // Iteration 4: the very next iteration sees the dead session and tears
    // it down in full: table entry erased, port released.
    let events = vec![(WriteOutcome::WouldBlock, ReadOutcome::WouldBlock)];
    let (_socks, dead, _) = run_iteration(&mut engine, socks, None, &events);
    assert_eq!(dead, vec![1]);
    assert!(!engine.is_tracked(1), "table entry removed");

    // The port is free again: a fresh connection may be admitted at once.
    let fresh = VirtualSocket {
        active: true,
        may_send: true,
        inbound: Vec::new(),
        send_space: 65535,
        outbound: Vec::new(),
    };
    let events = vec![(WriteOutcome::WouldBlock, ReadOutcome::WouldBlock)];
    let (_socks, _dead, port2) =
        run_iteration(&mut engine, Vec::new(), Some((2, fresh)), &events);
    assert!(port2.is_some());
    assert!(engine.is_tracked(2));
}
