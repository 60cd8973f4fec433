use token_resolver::address::{hex_digit, AddressError, TokenAddress, ADDRESS_TEXT_LEN};

#[test]
fn parse_reads_big_endian_digits() {
    let a = TokenAddress::parse(b"0x00000001000000000000000000000000000000ff").unwrap();
    assert_eq!(a, TokenAddress { hi: 1, lo: 255 });
    let b = TokenAddress::parse(b"0xdac17f958d2ee523a2206206994597c13d831ec7").unwrap();
    assert_eq!(b.hi, 0xdac17f95);
    assert_eq!(b.lo, 0x8d2ee523a2206206994597c13d831ec7);
}

#[test]
fn parse_extremes() {
    let zero = TokenAddress::parse(b"0x0000000000000000000000000000000000000000").unwrap();
    assert_eq!(zero, TokenAddress { hi: 0, lo: 0 });
    let top = TokenAddress::parse(b"0xffffffffffffffffffffffffffffffffffffffff").unwrap();
    assert_eq!(top, TokenAddress { hi: u32::MAX, lo: u128::MAX });
}

#[test]
fn parse_ignores_case() {
    let lower = TokenAddress::parse(b"0xdac17f958d2ee523a2206206994597c13d831ec7").unwrap();
    let upper = TokenAddress::parse(b"0xDAC17F958D2EE523A2206206994597C13D831EC7").unwrap();
    let mixed = TokenAddress::parse(b"0xdAC17F958D2ee523a2206206994597C13D831ec7").unwrap();
    assert_eq!(lower, upper);
    assert_eq!(lower, mixed);
}

#[test]
fn parse_rejects_bad_length() {
    assert_eq!(TokenAddress::parse(b""), Err(AddressError::BadLength));
    assert_eq!(TokenAddress::parse(b"0x12"), Err(AddressError::BadLength));
    assert_eq!(
        TokenAddress::parse(b"0xdac17f958d2ee523a2206206994597c13d831ec700"),
        Err(AddressError::BadLength)
    );
    assert_eq!(ADDRESS_TEXT_LEN, 42);
}

#[test]
fn parse_rejects_missing_prefix() {
    assert_eq!(
        TokenAddress::parse(b"00dac17f958d2ee523a2206206994597c13d831ec7"),
        Err(AddressError::MissingPrefix)
    );
    assert_eq!(
        TokenAddress::parse(b"0Xdac17f958d2ee523a2206206994597c13d831ec7"),
        Err(AddressError::MissingPrefix)
    );
}

#[test]
fn parse_rejects_bad_digit() {
    assert_eq!(
        TokenAddress::parse(b"0xgac17f958d2ee523a2206206994597c13d831ec7"),
        Err(AddressError::BadDigit)
    );
    assert_eq!(
        TokenAddress::parse(b"0xdac17f958d2ee523a2206206994597c13d831ec "),
        Err(AddressError::BadDigit)
    );
}

#[test]
fn hex_digit_values() {
    assert_eq!(hex_digit(b'0'), Some(0));
    assert_eq!(hex_digit(b'9'), Some(9));
    assert_eq!(hex_digit(b'a'), Some(10));
    assert_eq!(hex_digit(b'F'), Some(15));
    assert_eq!(hex_digit(b'g'), None);
    assert_eq!(hex_digit(b'/'), None);
    assert_eq!(hex_digit(b':'), None);
    assert_eq!(hex_digit(b'@'), None);
    assert_eq!(hex_digit(b'`'), None);
}

#[test]
fn to_text_is_lower_case_and_reads_back() {
    let a = TokenAddress { hi: 0xdac17f95, lo: 0x8d2ee523a2206206994597c13d831ec7 };
    let text = a.to_text();
    assert_eq!(text, b"0xdac17f958d2ee523a2206206994597c13d831ec7".to_vec());
    assert_eq!(TokenAddress::parse(&text), Ok(a));
    let zero = TokenAddress { hi: 0, lo: 0 };
    assert_eq!(zero.to_text(), b"0x0000000000000000000000000000000000000000".to_vec());
    let top = TokenAddress { hi: u32::MAX, lo: u128::MAX };
    assert_eq!(top.to_text(), b"0xffffffffffffffffffffffffffffffffffffffff".to_vec());
    let one = TokenAddress { hi: 1, lo: 0x10 };
    assert_eq!(one.to_text(), b"0x0000000100000000000000000000000000000010".to_vec());
}

#[test]
fn normalize_lowers_the_digits() {
    assert_eq!(
        TokenAddress::normalize(b"0xDAC17F958D2EE523A2206206994597C13D831EC7"),
        Ok(b"0xdac17f958d2ee523a2206206994597c13d831ec7".to_vec())
    );
    assert_eq!(
        TokenAddress::normalize(b"0xdac17f958d2ee523a2206206994597c13d831ec7"),
        Ok(b"0xdac17f958d2ee523a2206206994597c13d831ec7".to_vec())
    );
    assert_eq!(TokenAddress::normalize(b"0xDAC1"), Err(AddressError::BadLength));
    assert_eq!(
        TokenAddress::normalize(b"1xDAC17F958D2EE523A2206206994597C13D831EC7"),
        Err(AddressError::MissingPrefix)
    );
    assert_eq!(
        TokenAddress::normalize(b"0xZAC17F958D2EE523A2206206994597C13D831EC7"),
        Err(AddressError::BadDigit)
    );
}
