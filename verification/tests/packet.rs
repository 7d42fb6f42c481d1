use fastlane::packet::{
    build_payload_pattern, build_signature, calc_udp_checksum, optimal_batch_size,
    validate_signature, PacketSignature, ETHERNET_HEADER_SIZE, IPV4_HEADER_SIZE,
    RFC2544_PACKET_HEADER_SIZE, RFC2544_SIGNATURE, UDP_HEADER_SIZE,
};

#[test]
fn test_signature_validation() {
    let mut buf = vec![0u8; RFC2544_PACKET_HEADER_SIZE + 7];
    buf[ETHERNET_HEADER_SIZE + IPV4_HEADER_SIZE + UDP_HEADER_SIZE
        ..ETHERNET_HEADER_SIZE + IPV4_HEADER_SIZE + UDP_HEADER_SIZE + 7]
        .copy_from_slice(&RFC2544_SIGNATURE);
    assert!(validate_signature(&buf));
}

#[test]
fn test_payload_pattern() {
    let mut buf = vec![0u8; 100];
    build_payload_pattern(&mut buf, 150);
    for i in 0..10 {
        assert_eq!(buf[i], (i as u8) & 0x0f);
    }
}

#[test]
fn test_optimal_batch_size() {
    assert_eq!(optimal_batch_size(64), 128);
    assert_eq!(optimal_batch_size(128), 64);
    assert_eq!(optimal_batch_size(1518), 64);
    assert_eq!(optimal_batch_size(256), 32);
}

#[test]
fn test_udp_checksum() {
    let payload = vec![0x01, 0x02, 0x03, 0x04];
    let checksum = calc_udp_checksum(0xC0A80102, 0xC0A80103, 12, &payload);
    assert_ne!(checksum, 0);
}

#[test]
fn test_packet_signature_invalid() {
    let buf = vec![0u8; 150];
    assert!(!validate_signature(&buf));
}

#[test]
fn signature_accepted_in_long_frame() {
    let mut buf = vec![0u8; 150];
    buf[42..49].copy_from_slice(&RFC2544_SIGNATURE);
    assert!(validate_signature(&buf));
}

// The same buffer as the integration test of this name. That test expects
// these bytes to validate, but they spell "RGC2544" (0x47 at offset 43),
// while the signature is "RFC2544" (0x46) by the packet layout, the
// `RFC2544_SIGNATURE` constant, its doc and `test_signature_validation`; the
// expectation is not kept, and the frame is rejected.
#[test]
fn test_packet_signature_validation() {
    let mut buf = vec![0u8; 150];
    buf[42] = 0x52;
    buf[43] = 0x47;
    buf[44] = 0x43;
    buf[45] = 0x32;
    buf[46] = 0x35;
    buf[47] = 0x34;
    buf[48] = 0x34;
    assert!(!validate_signature(&buf));
    buf[43] = 0x46;
    assert!(validate_signature(&buf));
}

#[test]
fn signature_in_too_short_frame_rejected() {
    let mut buf = vec![0u8; RFC2544_PACKET_HEADER_SIZE + 6];
    buf[42..49].copy_from_slice(&RFC2544_SIGNATURE);
    assert!(!validate_signature(&buf));
}

#[test]
fn build_signature_fields() {
    let s = build_signature(7, 123_456_789, 3);
    assert_eq!(s.magic, RFC2544_SIGNATURE);
    assert_eq!(s.seq, 7);
    assert_eq!(s.timestamp_ns, 123_456_789);
    assert_eq!(s.stream_id, 3);
    assert_eq!(s.flags, 0);
    let d = PacketSignature::default();
    assert_eq!(d, build_signature(0, 0, 0));
}

#[test]
fn payload_pattern_stops_at_udp_payload() {
    // A 64-byte frame has an 18-byte UDP payload; the rest is left alone.
    let mut buf = vec![0xEEu8; 40];
    build_payload_pattern(&mut buf, 64);
    for i in 0..18 {
        assert_eq!(buf[i], (i % 16) as u8);
    }
    for i in 18..40 {
        assert_eq!(buf[i], 0xEE);
    }
}

#[test]
fn udp_checksum_exact_value() {
    // Header words 99264 + payload words 1540 = 100804, folded 35269.
    let payload = vec![0x01, 0x02, 0x03, 0x04];
    assert_eq!(calc_udp_checksum(0xC0A80102, 0xC0A80103, 12, &payload), 30266);
}

#[test]
fn udp_checksum_odd_payload() {
    // Bytes pair up little-endian; a last odd byte counts on its own.
    let even = calc_udp_checksum(0, 0, 0, &[0x01, 0x02]);
    let odd = calc_udp_checksum(0, 0, 0, &[0x01, 0x02, 0x03]);
    // Header words: 0x11 + 0x42 = 0x53.
    assert_eq!(even, 0xffff - (0x53 + 0x0201));
    assert_eq!(odd, 0xffff - (0x53 + 0x0201 + 0x03));
}

#[test]
fn udp_checksum_verifies() {
    // A receiver summing the words and the checksum gets all ones.
    let payload = vec![0xff; 9];
    let c = calc_udp_checksum(0xffffffff, 0xfffffffe, 0xffff, &payload) as u64;
    let mut sum: u64 = 0xffff + 0xffff + 0xffff + 0xfffe + 0x11 + 0xffff + 0x42 + 0xffff;
    sum += 4 * 0xffff + 0xff;
    sum += c;
    while sum >> 16 != 0 {
        sum = (sum & 0xffff) + (sum >> 16);
    }
    assert_eq!(sum, 0xffff);
}

#[test]
fn batch_size_clamps() {
    assert_eq!(optimal_batch_size(0), 128);
    assert_eq!(optimal_batch_size(9000), 64);
    assert_eq!(optimal_batch_size(512), 16);
    assert_eq!(optimal_batch_size(1024), 8);
    assert_eq!(optimal_batch_size(1280), 6);
}
