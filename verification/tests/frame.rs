use portfwd::frame::{receive_frame, transmit_buffer, RecvOutcome};
use portfwd::MTU;

#[test]
fn mtu_is_ethernet_sized() {
    assert_eq!(MTU, 1500);
}

#[test]
fn received_datagram_is_truncated_to_its_size() {
    let mut buf = vec![0u8; 8];
    buf[0] = 0xde;
    buf[1] = 0xad;
    buf[2] = 0xbe;
    let frame = receive_frame(buf, RecvOutcome::Received(3)).unwrap();
    assert_eq!(frame, vec![0xde, 0xad, 0xbe]);
}

#[test]
fn would_block_means_no_frame() {
    let buf = vec![7u8; 16];
    assert!(receive_frame(buf, RecvOutcome::WouldBlock).is_none());
}

#[test]
fn read_error_means_no_frame_not_a_crash() {
    let buf = vec![7u8; 16];
    assert!(receive_frame(buf, RecvOutcome::Failed).is_none());
}

#[test]
fn transmit_buffer_is_zeroed_at_requested_length() {
    let b = transmit_buffer(60);
    assert_eq!(b.len(), 60);
    assert!(b.iter().all(|&x| x == 0));
    assert_eq!(transmit_buffer(0).len(), 0);
}

#[test]
fn frame_round_trip_is_byte_for_byte() {
    // One frame per datagram, no header: a frame delivered intact decodes
    // to exactly the transmitted bytes.
    let frame: Vec<u8> = (0..255u8).cycle().take(1400).collect();
    let wire = frame.clone();
    let got = receive_frame(wire, RecvOutcome::Received(frame.len())).unwrap();
    assert_eq!(got.len(), frame.len());
    assert_eq!(got, frame);
}
