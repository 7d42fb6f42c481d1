use fastlane::payload::{generate_payload, PayloadPattern};

#[test]
fn test_sequential_payload() {
    let buf = generate_payload(128, PayloadPattern::Sequential);
    assert_eq!(buf.len(), 86); // 128 - 42
    for (i, byte) in buf.iter().enumerate() {
        assert_eq!(*byte, (i % 256) as u8);
    }
}

#[test]
fn test_repeating_payload() {
    let buf = generate_payload(64, PayloadPattern::Repeating);
    assert_eq!(buf.len(), 22);
    let pattern_data = [0xAA, 0x55, 0xFF, 0x00, 0x12, 0x34, 0x56, 0x78];
    for (i, byte) in buf.iter().enumerate() {
        assert_eq!(*byte, pattern_data[i % pattern_data.len()]);
    }
}

#[test]
fn test_random_payload() {
    let buf = generate_payload(256, PayloadPattern::Random);
    assert_eq!(buf.len(), 214);
}

#[test]
fn test_jumbo_frame_payload() {
    let buf = generate_payload(9000, PayloadPattern::Sequential);
    assert_eq!(buf.len(), 8958); // 9000 - 42
}

#[test]
fn random_payload_first_bytes() {
    let buf = generate_payload(50, PayloadPattern::Random);
    assert_eq!(buf, vec![203, 190, 211, 166, 129, 16, 88, 223]);
}

#[test]
fn random_payload_is_deterministic() {
    assert_eq!(
        generate_payload(300, PayloadPattern::Random),
        generate_payload(300, PayloadPattern::Random)
    );
}

#[test]
fn sequential_payload_wraps_at_256() {
    let buf = generate_payload(42 + 300, PayloadPattern::Sequential);
    assert_eq!(buf[255], 255);
    assert_eq!(buf[256], 0);
    assert_eq!(buf[299], 43);
}

#[test]
fn empty_payload_for_header_only_frame() {
    assert!(generate_payload(42, PayloadPattern::Repeating).is_empty());
}

#[test]
fn pattern_names() {
    assert_eq!(PayloadPattern::Sequential.to_string(), "sequential");
    assert_eq!(PayloadPattern::Repeating.to_string(), "repeating");
    assert_eq!(PayloadPattern::Random.to_string(), "random");
}
