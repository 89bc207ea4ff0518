//! Persistent 128-bit identities and their 32-digit lowercase hexadecimal form.

use vstd::prelude::*;
use vstd::arithmetic::div_mod::lemma_fundamental_div_mod_converse;

verus! {

/// Value of one lowercase hexadecimal digit byte (`0-9`, `a-f`).
pub open spec fn hex_digit_value(byte: u8) -> int {
    if 48 <= byte <= 57 {
        byte - 48
    } else {
        byte - 87
    }
}

/// Whether `byte` is one of `0-9` or `a-f`.
pub open spec fn is_lower_hex_digit(byte: u8) -> bool {
    (48 <= byte <= 57) || (97 <= byte <= 102)
}

/// Big-endian value of a sequence of hexadecimal digits.
pub open spec fn hex_value(digits: Seq<u8>) -> nat
    decreases digits.len(),
{
    if digits.len() == 0 {
        0
    } else {
        (hex_value(digits.drop_last()) * 16 + hex_digit_value(digits.last())) as nat
    }
}

/// Whether `text` is the canonical text of a persistent identity.
pub open spec fn is_persistent_id_text(text: Seq<u8>) -> bool {
    &&& text.len() == 32
    &&& forall|i: int| 0 <= i < text.len() ==> is_lower_hex_digit(#[trigger] text[i])
}

/// Parses the canonical 32-digit lowercase hexadecimal form of a persistent identity.
pub fn parse_persistent_id(text: &[u8]) -> (result: Option<u128>)
    ensures
        result is Some <==> is_persistent_id_text(text@),
        result matches Some(value) ==> value == hex_value(text@),
{
    if text.len() != 32 {
        return None;
    }
    let mut value: u128 = 0;
    let mut i: usize = 0;
    while i < 32
        invariant
            text@.len() == 32,
            0 <= i <= 32,
            value == hex_value(text@.take(i as int)),
            forall|j: int| 0 <= j < i ==> is_lower_hex_digit(#[trigger] text@[j]),
            value < pow16(i as nat),
        decreases 32 - i,
    {
        let byte = text[i];
        let digit: u128 = if 48 <= byte && byte <= 57 {
            (byte - 48) as u128
        } else if 97 <= byte && byte <= 102 {
            (byte - 87) as u128
        } else {
            return None;
        };
        proof {
            lemma_pow16_step(i as nat);
            assert(text@.take(i + 1).drop_last() =~= text@.take(i as int));
            assert(value * 16 + digit < pow16((i + 1) as nat)) by (nonlinear_arith)
                requires
                    value < pow16(i as nat),
                    digit < 16,
                    pow16((i + 1) as nat) == pow16(i as nat) * 16,
            ;
            lemma_pow16_bound((i + 1) as nat);
        }
        value = value * 16 + digit;
        i = i + 1;
    }
    assert(text@.take(32) =~= text@);
    Some(value)
}

/// `16^n`.
pub open spec fn pow16(n: nat) -> nat
    decreases n,
{
    if n == 0 {
        1
    } else {
        16 * pow16((n - 1) as nat)
    }
}

proof fn lemma_pow16_step(n: nat)
    ensures
        pow16(n + 1) == pow16(n) * 16,
{
}

proof fn lemma_pow16_bound(n: nat)
    requires
        n <= 32,
    ensures
        pow16(n) <= pow16(32),
        pow16(32) == 0x1_0000_0000_0000_0000_0000_0000_0000_0000,
    decreases n,
{
    reveal_with_fuel(pow16, 33);
    if n < 32 {
        lemma_pow16_monotone(n, 32);
    }
}

proof fn lemma_pow16_monotone(a: nat, b: nat)
    requires
        a <= b,
    ensures
        pow16(a) <= pow16(b),
    decreases b - a,
{
    if a < b {
        lemma_pow16_monotone(a, (b - 1) as nat);
    }
}

/// The lowercase hexadecimal digit byte for `digit < 16`.
pub open spec fn hex_byte(digit: int) -> u8 {
    if digit < 10 {
        (digit + 48) as u8
    } else {
        (digit + 87) as u8
    }
}

/// The `n` lowest hexadecimal digits of `value`, most significant first.
pub open spec fn hex_digits(value: nat, n: nat) -> Seq<u8>
    decreases n,
{
    if n == 0 {
        Seq::empty()
    } else {
        hex_digits(value / 16, (n - 1) as nat).push(hex_byte((value % 16) as int))
    }
}

/// The canonical text of a persistent identity: 32 lowercase hexadecimal digits.
pub open spec fn persistent_id_text(value: u128) -> Seq<u8> {
    hex_digits(value as nat, 32)
}

fn hex_digit_byte(digit: u128) -> (byte: u8)
    requires
        digit < 16,
    ensures
        byte == hex_byte(digit as int),
{
    if digit < 10 {
        (digit + 48) as u8
    } else {
        (digit + 87) as u8
    }
}

fn push_hex_digits(value: u128, n: usize) -> (digits: Vec<u8>)
    ensures
        digits@ == hex_digits(value as nat, n as nat),
    decreases n,
{
    if n == 0 {
        Vec::new()
    } else {
        let mut digits = push_hex_digits(value / 16, n - 1);
        digits.push(hex_digit_byte(value % 16));
        digits
    }
}

/// Formats a persistent identity as 32 lowercase hexadecimal digits (`{:032x}`).
pub fn format_persistent_id(value: u128) -> (text: Vec<u8>)
    ensures
        text@ == persistent_id_text(value),
{
    push_hex_digits(value, 32)
}

proof fn lemma_hex_digits_value(value: nat, n: nat)
    ensures
        hex_digits(value, n).len() == n,
        forall|i: int| 0 <= i < n ==> is_lower_hex_digit(#[trigger] hex_digits(value, n)[i]),
        hex_value(hex_digits(value, n)) == value % pow16(n),
    decreases n,
{
    if n > 0 {
        let q = value / 16;
        let r = value % 16;
        let p = pow16((n - 1) as nat);
        lemma_hex_digits_value(q, (n - 1) as nat);
        let digits = hex_digits(value, n);
        assert(digits.drop_last() =~= hex_digits(q, (n - 1) as nat));
        assert(hex_digit_value(hex_byte(r as int)) == r);
        assert(p > 0) by {
            lemma_pow16_positive((n - 1) as nat);
        }
        let low = q % p;
        assert(q == p * (q / p) + low) by {
            vstd::arithmetic::div_mod::lemma_fundamental_div_mod(q as int, p as int);
        }
        assert(value == (q / p) * (16 * p) + (16 * low + r)) by (nonlinear_arith)
            requires
                value == 16 * q + r,
                q == p * (q / p) + low,
        ;
        assert(0 <= 16 * low + r < 16 * p) by (nonlinear_arith)
            requires
                0 <= low < p,
                0 <= r < 16,
        ;
        lemma_fundamental_div_mod_converse(value as int, (16 * p) as int, (q / p) as int, (16 * low + r) as int);
    }
}

proof fn lemma_pow16_positive(n: nat)
    ensures
        pow16(n) > 0,
    decreases n,
{
    if n > 0 {
        lemma_pow16_positive((n - 1) as nat);
    }
}

proof fn lemma_hex_digits_of_value(digits: Seq<u8>)
    requires
        forall|i: int| 0 <= i < digits.len() ==> is_lower_hex_digit(#[trigger] digits[i]),
    ensures
        hex_digits(hex_value(digits), digits.len()) == digits,
    decreases digits.len(),
{
    if digits.len() > 0 {
        let rest = digits.drop_last();
        let d = hex_digit_value(digits.last());
        assert(is_lower_hex_digit(digits[digits.len() - 1]));
        assert forall|i: int| 0 <= i < rest.len() implies is_lower_hex_digit(#[trigger] rest[i]) by {
            assert(rest[i] == digits[i]);
        }
        lemma_hex_digits_of_value(rest);
        let h = hex_value(digits);
        lemma_fundamental_div_mod_converse(h as int, 16, hex_value(rest) as int, d);
        assert(hex_byte(d) == digits.last());
        assert(hex_digits(h, digits.len()) =~= digits);
    }
}

/// Parsing the canonical text of an identity gives the identity back.
pub proof fn lemma_parse_of_format(value: u128)
    ensures
        is_persistent_id_text(persistent_id_text(value)),
        hex_value(persistent_id_text(value)) == value,
{
    lemma_hex_digits_value(value as nat, 32);
    lemma_pow16_bound(32);
}

/// Formatting a parsed identity gives back exactly the text it was parsed from.
pub proof fn lemma_format_of_parse(text: Seq<u8>)
    requires
        is_persistent_id_text(text),
    ensures
        hex_value(text) < 0x1_0000_0000_0000_0000_0000_0000_0000_0000,
        persistent_id_text(hex_value(text) as u128) == text,
{
    lemma_hex_digits_of_value(text);
    lemma_hex_digits_value(hex_value(text), 32);
    lemma_pow16_bound(32);
}


/// Persistent planar-linkage document identity.
#[derive(Clone, Copy, Debug, PartialEq, Eq, Structural, PartialOrd, Ord, Hash)]
pub struct PlanarDocumentId(pub u128);

impl PlanarDocumentId {
    pub fn from_u128(value: u128) -> (id: Self)
        ensures
            id.0 == value,
    {
        PlanarDocumentId(value)
    }

    pub fn as_u128(self) -> (value: u128)
        ensures
            value == self.0,
    {
        self.0
    }

    /// The canonical text of this identity (32 lowercase hexadecimal digits).
    pub fn to_text(self) -> (text: Vec<u8>)
        ensures
            text@ == persistent_id_text(self.0),
    {
        format_persistent_id(self.0)
    }
}

/// Persistent planar rigid-body identity.
#[derive(Clone, Copy, Debug, PartialEq, Eq, Structural, PartialOrd, Ord, Hash)]
pub struct PlanarBodyId(pub u128);

impl PlanarBodyId {
    pub fn from_u128(value: u128) -> (id: Self)
        ensures
            id.0 == value,
    {
        PlanarBodyId(value)
    }

    pub fn as_u128(self) -> (value: u128)
        ensures
            value == self.0,
    {
        self.0
    }

    /// The canonical text of this identity (32 lowercase hexadecimal digits).
    pub fn to_text(self) -> (text: Vec<u8>)
        ensures
            text@ == persistent_id_text(self.0),
    {
        format_persistent_id(self.0)
    }
}

/// Persistent body-local feature identity.
#[derive(Clone, Copy, Debug, PartialEq, Eq, Structural, PartialOrd, Ord, Hash)]
pub struct PlanarFeatureId(pub u128);

impl PlanarFeatureId {
    pub fn from_u128(value: u128) -> (id: Self)
        ensures
            id.0 == value,
    {
        PlanarFeatureId(value)
    }

    pub fn as_u128(self) -> (value: u128)
        ensures
            value == self.0,
    {
        self.0
    }

    /// The canonical text of this identity (32 lowercase hexadecimal digits).
    pub fn to_text(self) -> (text: Vec<u8>)
        ensures
            text@ == persistent_id_text(self.0),
    {
        format_persistent_id(self.0)
    }
}

/// Persistent physical source and branch identity.
#[derive(Clone, Copy, Debug, PartialEq, Eq, Structural, PartialOrd, Ord, Hash)]
pub struct PlanarSourceId(pub u128);

impl PlanarSourceId {
    pub fn from_u128(value: u128) -> (id: Self)
        ensures
            id.0 == value,
    {
        PlanarSourceId(value)
    }

    pub fn as_u128(self) -> (value: u128)
        ensures
            value == self.0,
    {
        self.0
    }

    /// The canonical text of this identity (32 lowercase hexadecimal digits).
    pub fn to_text(self) -> (text: Vec<u8>)
        ensures
            text@ == persistent_id_text(self.0),
    {
        format_persistent_id(self.0)
    }
}

/// Persistent spatial-assembly document identity.
#[derive(Clone, Copy, Debug, PartialEq, Eq, Structural, PartialOrd, Ord, Hash)]
pub struct SpatialDocumentId(pub u128);

impl SpatialDocumentId {
    pub fn from_u128(value: u128) -> (id: Self)
        ensures
            id.0 == value,
    {
        SpatialDocumentId(value)
    }

    pub fn as_u128(self) -> (value: u128)
        ensures
            value == self.0,
    {
        self.0
    }

    /// The canonical text of this identity (32 lowercase hexadecimal digits).
    pub fn to_text(self) -> (text: Vec<u8>)
        ensures
            text@ == persistent_id_text(self.0),
    {
        format_persistent_id(self.0)
    }
}

/// Persistent identity in one spatial document.
#[derive(Clone, Copy, Debug, PartialEq, Eq, Structural, PartialOrd, Ord, Hash)]
pub struct SpatialPersistentId(pub u128);

impl SpatialPersistentId {
    pub fn from_u128(value: u128) -> (id: Self)
        ensures
            id.0 == value,
    {
        SpatialPersistentId(value)
    }

    pub fn as_u128(self) -> (value: u128)
        ensures
            value == self.0,
    {
        self.0
    }

    /// The canonical text of this identity (32 lowercase hexadecimal digits).
    pub fn to_text(self) -> (text: Vec<u8>)
        ensures
            text@ == persistent_id_text(self.0),
    {
        format_persistent_id(self.0)
    }
}

} // verus!
