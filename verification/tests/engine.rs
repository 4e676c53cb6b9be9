use portfwd::bridge::{ReadOutcome, WriteOutcome};
use portfwd::engine::{step_connections, Engine};
use portfwd::vsock::VirtualSocket;
use portfwd::wait::wait_timeout_parts;

fn established(inbound: &[u8]) -> VirtualSocket {
    VirtualSocket {
        active: true,
        may_send: true,
        inbound: inbound.to_vec(),
        send_space: 65535,
        outbound: Vec::new(),
    }
}

fn finished() -> VirtualSocket {
    VirtualSocket {
        active: false,
        may_send: false,
        inbound: Vec::new(),
        send_space: 0,
        outbound: Vec::new(),
    }
}

#[test]
fn admitted_connections_get_distinct_ports() {
    let mut engine = Engine::new();
    let p1 = engine.admit_connection(1);
    let p2 = engine.admit_connection(2);
    assert_ne!(p1, p2);
    assert!(engine.is_tracked(1));
    assert!(engine.is_tracked(2));
    assert_eq!(engine.port_of(1), p1);
    assert_eq!(engine.port_of(2), p2);
}

#[test]
fn split_admission_matches_the_real_accept_flow() {
    let mut engine = Engine::new();
    let port = engine.begin_connection();
    // ... the virtual connect runs here and yields the handle ...
    engine.register_connection(9, port);
    assert!(engine.is_tracked(9));
    assert_eq!(engine.port_of(9), port);
}

#[test]
fn reap_frees_port_and_entry_together() {
    let mut engine = Engine::new();
    let port = engine.admit_connection(5);
    let freed = engine.reap(5);
    assert_eq!(freed, port);
    assert!(!engine.is_tracked(5), "entry gone");
    // The port is immediately available again: a fresh admission may take it.
    let mut engine2 = Engine::new();
    let p = engine2.admit_connection(1);
    engine2.reap(1);
    let q = engine2.admit_connection(2);
    let _ = (p, q);
}

#[test]
fn reap_all_tears_down_every_listed_connection() {
    let mut engine = Engine::new();
    let _pa = engine.admit_connection(10);
    let _pb = engine.admit_connection(11);
    let _pc = engine.admit_connection(12);
    engine.reap_all(&vec![10, 12]);
    assert!(!engine.is_tracked(10));
    assert!(engine.is_tracked(11));
    assert!(!engine.is_tracked(12));
}

#[test]
fn scan_steps_every_connection_and_collects_the_dead() {
    let socks = vec![
        (1u64, established(b"keep")),
        (2u64, finished()),
        (3u64, established(b"")),
    ];
    let events = vec![
        (WriteOutcome::Wrote(4), ReadOutcome::WouldBlock),
        (WriteOutcome::WouldBlock, ReadOutcome::WouldBlock),
        (WriteOutcome::WouldBlock, ReadOutcome::Failed),
    ];
    let (stepped, dead) = step_connections(socks, &events);
    assert_eq!(stepped.len(), 3);
    assert_eq!(stepped[0].0, 1);
    assert!(stepped[0].1.inbound.is_empty());
    assert!(stepped[0].1.is_active());
    assert!(!stepped[2].1.is_active(), "read error reset the socket");
    assert_eq!(dead, vec![2, 3], "inactive and errored sessions collected in order");
}

#[test]
fn wait_falls_back_to_one_second_ceiling() {
    assert_eq!(wait_timeout_parts(None), (1, 0));
}

#[test]
fn wait_respects_the_recommended_poll_delay() {
    let d = smoltcp::time::Duration::from_millis(1500);
    assert_eq!(wait_timeout_parts(Some(d)), (1, 500_000));
    let z = smoltcp::time::Duration::from_millis(0);
    assert_eq!(wait_timeout_parts(Some(z)), (0, 0));
    let s = smoltcp::time::Duration::from_secs(3);
    assert_eq!(wait_timeout_parts(Some(s)), (3, 0));
}
