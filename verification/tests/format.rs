use token_resolver::format::{
    byte4_from_input, decode_bytes, format_bytes_slice, format_u256, selector_of, U256,
};

#[test]
fn format_u256_takes_the_low_limb() {
    assert_eq!(format_u256(U256 { limbs: [0, 0, 0, 0] }), 0);
    assert_eq!(format_u256(U256 { limbs: [21000, 0, 0, 0] }), 21000);
    assert_eq!(format_u256(U256 { limbs: [u64::MAX, 0, 0, 0] }), u64::MAX);
}

#[test]
fn fits_u64_needs_empty_upper_limbs() {
    assert!(U256 { limbs: [u64::MAX, 0, 0, 0] }.fits_u64());
    assert!(!U256 { limbs: [0, 1, 0, 0] }.fits_u64());
    assert!(!U256 { limbs: [0, 0, 1, 0] }.fits_u64());
    assert!(!U256 { limbs: [0, 0, 0, 1] }.fits_u64());
}

#[test]
fn decode_bytes_drops_the_prefix() {
    assert_eq!(decode_bytes("0x48656c6c6f".to_string()), b"Hello".to_vec());
    assert_eq!(decode_bytes("0xDEADbeef".to_string()), vec![0xde, 0xad, 0xbe, 0xef]);
    assert_eq!(decode_bytes("0x".to_string()), Vec::<u8>::new());
}

#[test]
fn format_bytes_slice_is_prefixed_lower_case() {
    assert_eq!(format_bytes_slice(&[0xde, 0xad, 0xbe, 0xef]), "0xdeadbeef");
    assert_eq!(format_bytes_slice(&[0x00, 0x0f, 0xf0]), "0x000ff0");
    assert_eq!(format_bytes_slice(&[]), "0x");
}

#[test]
fn byte4_is_the_first_four_bytes() {
    assert_eq!(byte4_from_input("0xa9059cbb000000000000000000000000"), [0xa9, 0x05, 0x9c, 0xbb]);
    assert_eq!(byte4_from_input("0xA9059CBB"), [0xa9, 0x05, 0x9c, 0xbb]);
}

#[test]
fn byte4_of_short_input_is_zero() {
    assert_eq!(byte4_from_input("0x"), [0, 0, 0, 0]);
    assert_eq!(byte4_from_input("0xa9059c"), [0, 0, 0, 0]);
}

#[test]
fn selector_of_rejects_malformed_input() {
    assert_eq!(selector_of(b"0xa9059cbb"), Some([0xa9, 0x05, 0x9c, 0xbb]));
    assert_eq!(selector_of(b"0x"), Some([0, 0, 0, 0]));
    assert_eq!(selector_of(b"a9059cbb"), None);
    assert_eq!(selector_of(b"0xa9059cb"), None);
    assert_eq!(selector_of(b"0xa9059cbg"), None);
    assert_eq!(selector_of(b""), None);
}
