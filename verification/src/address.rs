//! Token addresses: 160-bit contract identifiers and their textual form.

use vstd::prelude::*;

verus! {

/// A token contract address: 160 bits, held as the leading 32 bits and the
/// trailing 128 bits of the big-endian value. Two addresses are equal exactly
/// when their canonical texts are equal.
#[derive(Clone, Copy, Debug, PartialEq, Eq, Hash, Structural)]
pub struct TokenAddress {
    pub hi: u32,
    pub lo: u128,
}

/// Why a text is not an address.
#[derive(Clone, Copy, Debug, PartialEq, Eq, Structural)]
pub enum AddressError {
    /// The text is not exactly 42 bytes long.
    BadLength,
    /// The text does not start with `0x`.
    MissingPrefix,
    /// A byte after the prefix is not a hexadecimal digit.
    BadDigit,
}

/// Length of an address text: `0x` and forty digits.
pub const ADDRESS_TEXT_LEN: usize = 42;

pub open spec fn is_hex_digit(c: u8) -> bool {
    (48 <= c <= 57) || (65 <= c <= 70) || (97 <= c <= 102)
}

/// The number a hexadecimal digit stands for, in either case.
pub open spec fn hex_digit_value(c: u8) -> nat {
    if 48 <= c <= 57 {
        (c - 48) as nat
    } else if 65 <= c <= 70 {
        (c - 55) as nat
    } else if 97 <= c <= 102 {
        (c - 87) as nat
    } else {
        0
    }
}

/// The big-endian number that a run of hexadecimal digits spells.
pub open spec fn digits_value(s: Seq<u8>) -> nat
    decreases s.len(),
{
    if s.len() == 0 {
        0
    } else {
        16 * digits_value(s.drop_last()) + hex_digit_value(s.last())
    }
}

pub open spec fn all_hex_digits(s: Seq<u8>) -> bool {
    forall|i: int| 0 <= i < s.len() ==> is_hex_digit(#[trigger] s[i])
}

pub open spec fn pow16(n: nat) -> nat
    decreases n,
{
    if n == 0 {
        1
    } else {
        16 * pow16((n - 1) as nat)
    }
}

/// What is wrong with a text, if anything: the first of length, prefix and
/// digits that fails.
pub open spec fn text_error(text: Seq<u8>) -> Option<AddressError> {
    if text.len() != 42 {
        Some(AddressError::BadLength)
    } else if text[0] != 48 || text[1] != 120 {
        Some(AddressError::MissingPrefix)
    } else if !all_hex_digits(text.subrange(2, 42)) {
        Some(AddressError::BadDigit)
    } else {
        None
    }
}

/// The address that a well-formed text names.
pub open spec fn text_address(text: Seq<u8>) -> TokenAddress {
    TokenAddress {
        hi: digits_value(text.subrange(2, 10)) as u32,
        lo: digits_value(text.subrange(10, 42)) as u128,
    }
}

pub proof fn lemma_pow16_monotonic(a: nat, b: nat)
    requires
        a <= b,
    ensures
        1 <= pow16(a) <= pow16(b),
    decreases b,
{
    if b == 0 {
    } else if a == b {
        lemma_pow16_monotonic((a - 1) as nat, (b - 1) as nat);
    } else {
        lemma_pow16_monotonic(a, (b - 1) as nat);
    }
}

/// A run of `n` digits spells a number below `16^n`.
pub proof fn lemma_digits_value_bound(s: Seq<u8>)
    ensures
        digits_value(s) < pow16(s.len()),
    decreases s.len(),
{
    if s.len() > 0 {
        lemma_digits_value_bound(s.drop_last());
        assert(hex_digit_value(s.last()) <= 15);
    }
}

proof fn lemma_pow16_values()
    ensures
        pow16(8) == 0x1_0000_0000,
        pow16(31) == 0x1000_0000_0000_0000_0000_0000_0000_0000,
        pow16(32) == 0x1000_0000_0000_0000_0000_0000_0000_0000 * 16,
{
    reveal_with_fuel(pow16, 9);
    assert(pow16(8) == 0x1_0000_0000);
    assert(pow16(16) == 0x1_0000_0000_0000_0000);
    assert(pow16(24) == 0x1_0000_0000_0000_0000_0000_0000);
    assert(pow16(31) == 0x1000_0000_0000_0000_0000_0000_0000_0000);
}

/// The digit that a byte spells, if it is one.
pub fn hex_digit(c: u8) -> (r: Option<u8>)
    ensures
        r.is_some() == is_hex_digit(c),
        r.is_some() ==> r.unwrap() == hex_digit_value(c),
{
    if 48 <= c && c <= 57 {
        Some(c - 48)
    } else if 65 <= c && c <= 70 {
        Some(c - 55)
    } else if 97 <= c && c <= 102 {
        Some(c - 87)
    } else {
        None
    }
}

/// Reads the digits `text[from..to]` as one big-endian number.
fn fold_digits(text: &[u8], from: usize, to: usize) -> (r: Option<u128>)
    requires
        from <= to <= text@.len(),
        to - from <= 32,
    ensures
        r.is_some() == all_hex_digits(text@.subrange(from as int, to as int)),
        r.is_some() ==> r.unwrap() == digits_value(text@.subrange(from as int, to as int)),
{
    let mut acc: u128 = 0;
    let mut i: usize = from;
    while i < to
        invariant
            from <= i <= to <= text@.len(),
            to - from <= 32,
            all_hex_digits(text@.subrange(from as int, i as int)),
            acc == digits_value(text@.subrange(from as int, i as int)),
        decreases to - i,
    {
        let ghost before = text@.subrange(from as int, i as int);
        let ghost after = text@.subrange(from as int, i + 1);
        proof {
            assert(after.drop_last() =~= before);
            assert(after.last() == text@[i as int]);
            lemma_digits_value_bound(before);
            lemma_pow16_monotonic(before.len(), 31);
            lemma_pow16_values();
        }
        match hex_digit(text[i]) {
            None => {
                proof {
                    let whole = text@.subrange(from as int, to as int);
                    assert(whole[i - from] == text@[i as int]);
                }
                return None;
            },
            Some(d) => {
                acc = acc * 16 + (d as u128);
                proof {
                    assert forall|k: int| 0 <= k < after.len() implies is_hex_digit(
                        #[trigger] after[k],
                    ) by {
                        if k < before.len() {
                            assert(after[k] == before[k]);
                        }
                    }
                }
            },
        }
        i = i + 1;
    }
    Some(acc)
}

/// A digit as the canonical text writes it: in lower case.
pub open spec fn is_lower_hex_digit(c: u8) -> bool {
    (48 <= c <= 57) || (97 <= c <= 102)
}

/// A text in canonical form: an address text whose digits are all in lower
/// case.
pub open spec fn is_canonical(text: Seq<u8>) -> bool {
    text_error(text).is_none() && forall|i: int|
        2 <= i < text.len() ==> is_lower_hex_digit(#[trigger] text[i])
}

/// A digit in front of a run counts sixteen to the run's length times its
/// own value.
pub proof fn lemma_digits_value_prepend(c: u8, s: Seq<u8>)
    ensures
        digits_value(seq![c] + s) == hex_digit_value(c) * pow16(s.len()) + digits_value(s),
    decreases s.len(),
{
    let t = seq![c] + s;
    if s.len() == 0 {
        assert(t.drop_last() =~= Seq::<u8>::empty());
        assert(t.last() == c);
        reveal_with_fuel(digits_value, 2);
    } else {
        assert(t.drop_last() =~= seq![c] + s.drop_last());
        assert(t.last() == s.last());
        lemma_digits_value_prepend(c, s.drop_last());
        let v = hex_digit_value(c);
        let p = pow16(s.drop_last().len());
        assert(pow16(s.len()) == 16 * p);
        assert(16 * (v * p) == v * (16 * p)) by (nonlinear_arith);
    }
}

/// The lower-case digit for a number below sixteen.
fn digit_char(d: u8) -> (c: u8)
    requires
        d < 16,
    ensures
        is_lower_hex_digit(c),
        hex_digit_value(c) == d,
{
    if d < 10 {
        48 + d
    } else {
        87 + d
    }
}

/// Appends `value` to `text` as `count` lower-case digits, the most
/// significant first.
fn push_digits(text: &mut Vec<u8>, value: u128, count: usize)
    requires
        count <= 32,
        value < pow16(count as nat),
        old(text)@.len() <= 64,
    ensures
        final(text)@.len() == old(text)@.len() + count,
        final(text)@.subrange(0, old(text)@.len() as int) == old(text)@,
        digits_value(final(text)@.subrange(old(text)@.len() as int, final(text)@.len() as int))
            == value,
        forall|i: int|
            old(text)@.len() <= i < final(text)@.len() ==> is_lower_hex_digit(
                #[trigger] final(text)@[i],
            ),
{
    let ghost before = text@;
    let start: usize = text.len();
    let mut k: usize = 0;
    while k < count
        invariant
            k <= count <= 32,
            start == before.len(),
            start <= 64,
            text@.len() == start + k,
            text@.subrange(0, start as int) == before,
        decreases count - k,
    {
        text.push(48);
        assert(text@.subrange(0, start as int) =~= before);
        k = k + 1;
    }
    let end: usize = start + count;
    let mut rest: u128 = value;
    let mut j: usize = 0;
    assert(text@.subrange(end as int, end as int) =~= Seq::<u8>::empty());
    assert(pow16(0) == 1);
    while j < count
        invariant
            j <= count <= 32,
            start == before.len(),
            end == start + count,
            text@.len() == end,
            text@.subrange(0, start as int) == before,
            value == rest * pow16(j as nat) + digits_value(text@.subrange(end - j, end as int)),
            forall|i: int| end - j <= i < end ==> is_lower_hex_digit(#[trigger] text@[i]),
        decreases count - j,
    {
        let d: u8 = (rest % 16) as u8;
        let c = digit_char(d);
        let ghost suffix = text@.subrange(end - j, end as int);
        text.set(end - 1 - j, c);
        proof {
            let longer = text@.subrange(end - j - 1, end as int);
            assert(longer =~= seq![c] + suffix);
            assert(text@.subrange(0, start as int) =~= before);
            lemma_digits_value_prepend(c, suffix);
            let p = pow16(j as nat);
            let q = rest / 16;
            assert(pow16((j + 1) as nat) == 16 * p);
            assert(q * (16 * p) + d * p == rest * p) by (nonlinear_arith)
                requires
                    rest == 16 * q + d,
            ;
        }
        rest = rest / 16;
        j = j + 1;
    }
    proof {
        assert(text@.subrange(end - count, end as int) =~= text@.subrange(
            start as int,
            text@.len() as int,
        ));
        let p = pow16(count as nat);
        assert(rest == 0) by (nonlinear_arith)
            requires
                rest >= 0,
                p > 0,
                rest * p < p,
        ;
    }
}

impl TokenAddress {
    /// The canonical text of the address: `0x` and forty lower-case digits.
    /// Reading it gives the address back.
    pub fn to_text(&self) -> (text: Vec<u8>)
        ensures
            is_canonical(text@),
            text_address(text@) == *self,
    {
        let mut text: Vec<u8> = Vec::new();
        text.push(48);
        text.push(120);
        proof {
            lemma_pow16_values();
        }
        let ghost prefix = text@;
        push_digits(&mut text, self.hi as u128, 8);
        let ghost head = text@.subrange(2, 10);
        let ghost mid = text@;
        proof {
            assert(mid.subrange(0, 2)[0] == prefix[0]);
            assert(mid.subrange(0, 2)[1] == prefix[1]);
        }
        push_digits(&mut text, self.lo, 32);
        proof {
            assert(text@.subrange(0, 10) == mid);
            assert(text@.subrange(2, 10) =~= head) by {
                assert forall|i: int| 0 <= i < 8 implies text@.subrange(2, 10)[i] == head[i] by {
                    assert(text@.subrange(0, 10)[i + 2] == mid[i + 2]);
                }
            }
            assert(text@[0] == mid[0] && text@[1] == mid[1]) by {
                assert(text@.subrange(0, 10)[0] == mid[0]);
                assert(text@.subrange(0, 10)[1] == mid[1]);
            }
            assert forall|i: int| 2 <= i < 42 implies is_lower_hex_digit(#[trigger] text@[i]) by {
                if i < 10 {
                    assert(text@.subrange(0, 10)[i] == mid[i]);
                }
            }
            assert(all_hex_digits(text@.subrange(2, 42))) by {
                assert forall|i: int| 0 <= i < 40 implies is_hex_digit(
                    #[trigger] text@.subrange(2, 42)[i],
                ) by {
                    assert(is_lower_hex_digit(text@[i + 2]));
                }
            }
        }
        text
    }

    /// The canonical form of an address text: the same address, its digits
    /// in lower case. A text that is no address is rejected.
    pub fn normalize(text: &[u8]) -> (r: Result<Vec<u8>, AddressError>)
        ensures
            match r {
                Ok(canonical) => text_error(text@).is_none() && is_canonical(canonical@)
                    && text_address(canonical@) == text_address(text@),
                Err(e) => text_error(text@) == Some(e),
            },
    {
        match TokenAddress::parse(text) {
            Ok(address) => Ok(address.to_text()),
            Err(e) => Err(e),
        }
    }

    /// Reads an address from its text: `0x` and forty hexadecimal digits in
    /// either case. Texts that differ only in the case of their digits name
    /// the same address; any other text is rejected.
    pub fn parse(text: &[u8]) -> (r: Result<TokenAddress, AddressError>)
        ensures
            match r {
                Ok(a) => text_error(text@).is_none() && a == text_address(text@),
                Err(e) => text_error(text@) == Some(e),
            },
    {
        if text.len() != ADDRESS_TEXT_LEN {
            return Err(AddressError::BadLength);
        }
        if text[0] != 48 || text[1] != 120 {
            return Err(AddressError::MissingPrefix);
        }
        let ghost digits = text@.subrange(2, 42);
        let ghost head = text@.subrange(2, 10);
        let ghost tail = text@.subrange(10, 42);
        proof {
            assert forall|k: int| 0 <= k < head.len() implies head[k] == digits[k] by {}
            assert forall|k: int| 0 <= k < tail.len() implies tail[k] == digits[k + 8] by {}
            assert forall|k: int| 0 <= k < digits.len() implies (if k < 8 {
                digits[k] == head[k]
            } else {
                digits[k] == tail[k - 8]
            }) by {}
            lemma_digits_value_bound(head);
            lemma_digits_value_bound(tail);
            lemma_pow16_values();
        }
        let hi = fold_digits(text, 2, 10);
        let lo = fold_digits(text, 10, 42);
        match (hi, lo) {
            (Some(h), Some(l)) => {
                proof {
                    assert forall|k: int| 0 <= k < digits.len() implies is_hex_digit(
                        #[trigger] digits[k],
                    ) by {
                        if k < 8 {
                            assert(is_hex_digit(head[k]));
                        } else {
                            assert(is_hex_digit(tail[k - 8]));
                        }
                    }
                }
                Ok(TokenAddress { hi: h as u32, lo: l })
            },
            (None, _) => {
                proof {
                    let k = choose|k: int| 0 <= k < head.len() && !is_hex_digit(#[trigger] head[k]);
                    assert(!is_hex_digit(digits[k]));
                }
                Err(AddressError::BadDigit)
            },
            (_, None) => {
                proof {
                    let k = choose|k: int| 0 <= k < tail.len() && !is_hex_digit(#[trigger] tail[k]);
                    assert(!is_hex_digit(digits[k + 8]));
                }
                Err(AddressError::BadDigit)
            },
        }
    }
}

/// Case does not matter: two digit runs that spell the same digits name the
/// same number.
pub proof fn lemma_digits_value_ignores_case(s: Seq<u8>, t: Seq<u8>)
    requires
        s.len() == t.len(),
        forall|i: int|
            0 <= i < s.len() ==> is_hex_digit(#[trigger] s[i]) && is_hex_digit(t[i])
                && hex_digit_value(s[i]) == hex_digit_value(t[i]),
    ensures
        digits_value(s) == digits_value(t),
    decreases s.len(),
{
    if s.len() > 0 {
        assert(is_hex_digit(s[s.len() - 1]));
        assert forall|i: int| 0 <= i < s.drop_last().len() implies is_hex_digit(
            #[trigger] s.drop_last()[i],
        ) && is_hex_digit(t.drop_last()[i]) && hex_digit_value(s.drop_last()[i])
            == hex_digit_value(t.drop_last()[i]) by {
            assert(is_hex_digit(s[i]));
        }
        lemma_digits_value_ignores_case(s.drop_last(), t.drop_last());
    }
}

} // verus!
