//! Hexadecimal texts and 256-bit numbers as the storage rows hold them.

use vstd::pervasive::unreached;
use vstd::prelude::*;
use vstd::slice::slice_subrange;
use vstd::string::*;
use vstd::utf8::encode_utf8;
use crate::address::{all_hex_digits, hex_digit_value};

verus! {

/// A 256-bit unsigned number as four 64-bit limbs, the least significant
/// first.
#[derive(Clone, Copy, Debug)]
pub struct U256 {
    pub limbs: [u64; 4],
}

impl U256 {
    /// The number held.
    pub open spec fn value(&self) -> nat {
        (self.limbs[0] as nat) + (self.limbs[1] as nat) * 0x1_0000_0000_0000_0000 + (
        self.limbs[2] as nat) * 0x1_0000_0000_0000_0000 * 0x1_0000_0000_0000_0000 + (
        self.limbs[3] as nat) * 0x1_0000_0000_0000_0000 * 0x1_0000_0000_0000_0000
            * 0x1_0000_0000_0000_0000
    }

    /// Whether the number is small enough for a `u64`.
    pub fn fits_u64(&self) -> (b: bool)
        ensures
            b == (self.value() <= u64::MAX),
    {
        self.limbs[1] == 0 && self.limbs[2] == 0 && self.limbs[3] == 0
    }
}

/// The number as a `u64`. The number must fit.
pub fn format_u256(u: U256) -> (r: u64)
    requires
        u.value() <= u64::MAX,
    ensures
        r == u.value(),
{
    u.limbs[0]
}

/// A text of hexadecimal digits, two for each byte.
pub open spec fn is_hex_text(s: Seq<u8>) -> bool {
    s.len() % 2 == 0 && all_hex_digits(s)
}

/// The bytes that a hexadecimal text spells: each pair of digits is one
/// byte, the first digit its upper half.
pub open spec fn hex_bytes(s: Seq<u8>) -> Seq<u8> {
    Seq::new(
        s.len() / 2,
        |i: int| (16 * hex_digit_value(s[2 * i]) + hex_digit_value(s[2 * i + 1])) as u8,
    )
}

/// The lower-case hexadecimal digit for a number below sixteen.
pub open spec fn hex_char(n: u8) -> char {
    if n < 10 {
        ((48 + n) as u8) as char
    } else {
        ((87 + n) as u8) as char
    }
}

/// The lower-case hexadecimal text of some bytes: two digits for each, the
/// upper half first.
pub open spec fn hex_chars(b: Seq<u8>) -> Seq<char> {
    Seq::new(
        2 * b.len(),
        |i: int|
            if i % 2 == 0 {
                hex_char(b[i / 2] / 16)
            } else {
                hex_char(b[i / 2] % 16)
            },
    )
}

#[verifier::external_type_specification]
#[verifier::external_body]
pub struct ExFromHexError(hex::FromHexError);

/// `hex::decode`. It succeeds exactly on texts of an even number of
/// hexadecimal digits, in either case, and then returns the byte that each
/// pair of digits spells, in order.
#[verifier::external_body]
fn hex_decode(data: &[u8]) -> (r: Result<Vec<u8>, hex::FromHexError>)
    ensures
        r.is_ok() == is_hex_text(data@),
        r.is_ok() ==> r.unwrap()@ == hex_bytes(data@),
{
    hex::decode(data)
}

/// `hex::encode`. It returns two lower-case digits for each byte, the upper
/// half first, in order.
#[verifier::external_body]
fn hex_encode(data: &[u8]) -> (r: String)
    ensures
        r@ == hex_chars(data@),
{
    hex::encode(data)
}

/// Whether a text is `0x` followed by a hexadecimal text.
pub open spec fn is_prefixed_hex(s: Seq<u8>) -> bool {
    s.len() >= 2 && s[0] == 48 && s[1] == 120 && is_hex_text(s.subrange(2, s.len() as int))
}

/// The first four bytes, or four zero bytes where there are fewer.
pub open spec fn leading_four(b: Seq<u8>) -> Seq<u8> {
    if b.len() < 4 {
        seq![0u8, 0u8, 0u8, 0u8]
    } else {
        b.subrange(0, 4)
    }
}

/// The bytes that a text spells after its first two bytes, which are
/// dropped unread. What follows them must be a hexadecimal text.
pub fn decode_bytes(s: String) -> (r: Vec<u8>)
    requires
        encode_utf8(s@).len() >= 2,
        is_hex_text(encode_utf8(s@).subrange(2, encode_utf8(s@).len() as int)),
    ensures
        r@ == hex_bytes(encode_utf8(s@).subrange(2, encode_utf8(s@).len() as int)),
{
    let text = s.as_str();
    let bytes = text.as_bytes();
    let without_prefix = slice_subrange(bytes, 2, bytes.len());
    match hex_decode(without_prefix) {
        Ok(decoded) => decoded,
        Err(_) => unreached(),
    }
}

/// `0x` and the lower-case hexadecimal text of the bytes.
pub fn format_bytes_slice(b: &[u8]) -> (r: String)
    ensures
        r@ == seq!['0', 'x'] + hex_chars(b@),
{
    let mut text = "0x".to_owned();
    proof {
        reveal_strlit("0x");
        assert(text@ =~= seq!['0', 'x']);
    }
    let digits = hex_encode(b);
    text.append(digits.as_str());
    text
}

/// The method selector of a call input, if the input is `0x` followed by a
/// hexadecimal text: the first four bytes that the text spells, or four
/// zero bytes where it spells fewer.
pub fn selector_of(input: &[u8]) -> (r: Option<[u8; 4]>)
    ensures
        r.is_some() == is_prefixed_hex(input@),
        r.is_some() ==> r.unwrap()@ == leading_four(
            hex_bytes(input@.subrange(2, input@.len() as int)),
        ),
{
    if input.len() < 2 || input[0] != 48 || input[1] != 120 {
        return None;
    }
    let sanitized = slice_subrange(input, 2, input.len());
    match hex_decode(sanitized) {
        Ok(decoded) => {
            if decoded.len() < 4 {
                let zero: [u8; 4] = [0, 0, 0, 0];
                assert(zero@ =~= seq![0u8, 0u8, 0u8, 0u8]);
                Some(zero)
            } else {
                let byte4: [u8; 4] = [decoded[0], decoded[1], decoded[2], decoded[3]];
                assert(byte4@ =~= decoded@.subrange(0, 4));
                Some(byte4)
            }
        },
        Err(_) => None,
    }
}

/// The method selector of a call input that is `0x` followed by a
/// hexadecimal text.
pub fn byte4_from_input(input: &str) -> (r: [u8; 4])
    requires
        is_prefixed_hex(input.spec_bytes()),
    ensures
        r@ == leading_four(
            hex_bytes(input.spec_bytes().subrange(2, input.spec_bytes().len() as int)),
        ),
{
    match selector_of(input.as_bytes()) {
        Some(byte4) => byte4,
        None => unreached(),
    }
}

} // verus!
