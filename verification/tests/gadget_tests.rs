use composite_joystick::gadget::{decode_descriptor, decode_hex, strip_spaces};

#[test]
fn test_decode_hex_exact_bytes() {
    let input: Vec<u8> = b"05010904a101".to_vec();
    let decoded = decode_hex(&input).expect("valid hex must decode");
    assert_eq!(decoded, vec![0x05, 0x01, 0x09, 0x04, 0xa1, 0x01]);
}

#[test]
fn test_decode_hex_mixed_case() {
    let input: Vec<u8> = b"DeadBEEF".to_vec();
    let decoded = decode_hex(&input).expect("valid hex must decode");
    assert_eq!(decoded, vec![0xde, 0xad, 0xbe, 0xef]);
}

#[test]
fn test_decode_hex_empty() {
    let input: Vec<u8> = Vec::new();
    assert_eq!(decode_hex(&input), Some(Vec::new()));
}

#[test]
fn test_decode_hex_odd_length_fails() {
    let input: Vec<u8> = b"05010".to_vec();
    assert_eq!(decode_hex(&input), None);
}

#[test]
fn test_decode_hex_bad_digit_fails() {
    let input: Vec<u8> = b"05g1".to_vec();
    assert_eq!(decode_hex(&input), None);
}

#[test]
fn test_strip_spaces() {
    let input: Vec<u8> = b" 05 01 09 ".to_vec();
    assert_eq!(strip_spaces(&input), b"050109".to_vec());
}

#[test]
fn test_decode_descriptor_with_spaces() {
    let input: Vec<u8> = b"05 01 09 04".to_vec();
    let decoded = decode_descriptor(&input).expect("descriptor must decode");
    assert_eq!(decoded, vec![0x05, 0x01, 0x09, 0x04]);
}

#[test]
fn test_decode_descriptor_rejects_stray_digit() {
    let input: Vec<u8> = b"05 01 0".to_vec();
    assert_eq!(decode_descriptor(&input), None);
}
