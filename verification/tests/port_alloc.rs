use portfwd::port_alloc::PortAlloc;

#[test]
fn allocated_ports_are_distinct_and_in_range() {
    let mut ports = PortAlloc::new();
    let mut seen: Vec<u16> = Vec::new();
    for _ in 0..1000 {
        let p = ports.get();
        assert!((49152..49152 + 16383).contains(&p));
        assert!(!seen.contains(&p), "port {} handed out twice", p);
        assert!(ports.is_outstanding(p));
        seen.push(p);
    }
    assert_eq!(ports.outstanding(), 1000);
}

#[test]
fn released_port_is_no_longer_outstanding() {
    let mut ports = PortAlloc::new();
    let p = ports.get();
    assert!(ports.is_outstanding(p));
    ports.unget(p);
    assert!(!ports.is_outstanding(p));
    assert_eq!(ports.outstanding(), 0);
}

#[test]
fn released_port_can_be_handed_out_again() {
    let mut ports = PortAlloc::new();
    let first = ports.get();
    ports.unget(first);
    // Drain enough of the range that the released port must reappear.
    let mut reissued = false;
    for _ in 0..16383 {
        if ports.get() == first {
            reissued = true;
            break;
        }
    }
    assert!(reissued);
}

#[test]
fn fresh_allocator_has_nothing_outstanding() {
    let ports = PortAlloc::new();
    assert_eq!(ports.outstanding(), 0);
    assert!(!ports.is_outstanding(49152));
}
