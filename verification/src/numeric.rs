//! Decimal numbers sent to and read from MySQL-like backends, as
//! `bigdecimal::BigDecimal`: sent as their decimal text, read from the text
//! the server sends.

use vstd::prelude::*;
use vstd::arithmetic::power::pow;
use std::io::Write;
use bigdecimal::BigDecimal;
use bigdecimal::num_bigint::{BigInt, Sign};
use crate::query_builder::{decimal, push_decimal};
use crate::util::{join_texts, push_text};

verus! {

/// A decimal number as plain parts: the base-10 digits of its integer part
/// (most significant first, each below ten), whether that integer is
/// negative, and the scale: the number is that integer times ten to the
/// power `-scale`.
#[derive(Debug, PartialEq, Eq)]
pub struct Decimal {
    negative: bool,
    digits: Vec<u8>,
    scale: i64,
}

/// Digits in base ten.
pub open spec fn decimal_digits(digits: Seq<u8>) -> bool {
    forall|i: int| 0 <= i < digits.len() ==> #[trigger] digits[i] < 10
}

impl View for Decimal {
    type V = (bool, Seq<u8>, int);

    closed spec fn view(&self) -> (bool, Seq<u8>, int) {
        (self.negative, self.digits@, self.scale as int)
    }
}

impl Decimal {
    #[verifier::type_invariant]
    closed spec fn digits_in_base_ten(self) -> bool {
        decimal_digits(self.digits@)
    }

    /// The decimal with these parts, when every digit is below ten.
    pub fn new(negative: bool, digits: Vec<u8>, scale: i64) -> (r: Option<Decimal>)
        ensures
            match r {
                Some(d) => decimal_digits(digits@) && d@ == (negative, digits@, scale as int),
                None => !decimal_digits(digits@),
            },
    {
        let mut i: usize = 0;
        while i < digits.len()
            invariant
                i <= digits@.len(),
                forall|k: int| 0 <= k < i ==> #[trigger] digits@[k] < 10,
            decreases digits@.len() - i,
        {
            if digits[i] >= 10 {
                return None;
            }
            i = i + 1;
        }
        Some(Decimal { negative, digits, scale })
    }

    /// Whether the integer part is negative.
    pub fn negative(&self) -> (r: bool)
        ensures
            r == self@.0,
    {
        self.negative
    }

    /// The base-10 digits of the integer part.
    pub fn digits(&self) -> (r: &Vec<u8>)
        ensures
            r@ == self@.1,
            decimal_digits(r@),
    {
        proof {
            use_type_invariant(self);
        }
        &self.digits
    }

    /// The scale.
    pub fn scale(&self) -> (r: i64)
        ensures
            r as int == self@.2,
    {
        self.scale
    }
}

/// The parts of what `BigDecimal::parse_bytes(bytes, 10)` returns, when it
/// reads `bytes` as a number: the sign and base-10 digits of its integer
/// value and its scale, as `as_bigint_and_exponent` and `to_radix_be(10)` give them.
pub uninterp spec fn decimal_bytes_value(bytes: Seq<u8>) -> Option<(bool, Seq<u8>, int)>;

/// The bytes of the `Display` text of the `BigDecimal` with these parts.
pub uninterp spec fn decimal_display(parts: (bool, Seq<u8>, int)) -> Seq<u8>;

/// The integer that base-10 digits spell, most significant first.
pub open spec fn digits_value(digits: Seq<u8>) -> int
    decreases digits.len(),
{
    if digits.len() == 0 {
        0
    } else {
        digits_value(digits.drop_last()) * 10 + digits.last()
    }
}

/// The integer part of a decimal, with its sign.
pub open spec fn signed_value(parts: (bool, Seq<u8>, int)) -> int {
    if parts.0 {
        -digits_value(parts.1)
    } else {
        digits_value(parts.1)
    }
}

/// Two decimals that are the same number, whatever their scales: each
/// integer part times ten to the power `-scale`.
pub open spec fn same_number(a: (bool, Seq<u8>, int), b: (bool, Seq<u8>, int)) -> bool {
    if a.2 <= b.2 {
        signed_value(a) * pow(10, (b.2 - a.2) as nat) == signed_value(b)
    } else {
        signed_value(b) * pow(10, (a.2 - b.2) as nat) == signed_value(a)
    }
}

/// Bytes that `parse_bytes` reads as the same number as `parts`.
pub open spec fn reads_back_as(bytes: Seq<u8>, parts: (bool, Seq<u8>, int)) -> bool {
    decimal_bytes_value(bytes) matches Some(q) && same_number(q, parts)
}

/// Calls `BigDecimal::parse_bytes` with radix 10, which reads the bytes as
/// UTF-8 decimal text, and takes the parts of the number it gives:
/// `as_bigint_and_exponent`, then `BigInt::to_radix_be(10)`, whose digits are
/// remainders modulo ten. The parts are named, not restated.
#[verifier::external_body]
fn parse_decimal(bytes: &[u8]) -> (r: Option<(bool, Vec<u8>, i64)>)
    ensures
        match r {
            Some((n, ds, sc)) => decimal_bytes_value(bytes@) == Some((n, ds@, sc as int)) && decimal_digits(ds@),
            None => decimal_bytes_value(bytes@) is None,
        },
{
    match BigDecimal::parse_bytes(bytes, 10) {
        Some(d) => {
            let (int_val, scale) = d.into_bigint_and_exponent();
            let (sign, digits) = int_val.to_radix_be(10);
            Some((sign == Sign::Minus, digits, scale))
        },
        None => None,
    }
}

/// Builds the `BigDecimal` with these parts (`BigInt::from_radix_be`, which
/// gives a number for digits below ten, then `BigDecimal::new`) and writes it
/// as `Display` shows it at the end of `out`; `Vec<u8>` takes what is written
/// by appending it. The `Display` text is one that `from_str_radix`, and so
/// `parse_bytes`, reads back as the same number: digits with an optional `-`,
/// `.` and exponent `e`/`E` with its sign, which the parser splits off the
/// same way (as the crate's own formatting tests check by reading each
/// result back).
#[verifier::external_body]
fn write_decimal(negative: bool, digits: &Vec<u8>, scale: i64, out: &mut Vec<u8>)
    requires
        decimal_digits(digits@),
    ensures
        final(out)@ == old(out)@ + decimal_display((negative, digits@, scale as int)),
        reads_back_as(final(out)@.skip(old(out)@.len() as int), (negative, digits@, scale as int)),
{
    let sign = if negative { Sign::Minus } else { Sign::Plus };
    let int_val = BigInt::from_radix_be(sign, digits, 10).unwrap();
    let _ = write!(out, "{}", BigDecimal::new(int_val, scale));
}

/// Whether a value was sent as SQL `NULL`.
#[derive(Debug, Clone, Copy, PartialEq, Eq, Structural)]
pub enum IsNull {
    Yes,
    No,
}

/// Sends `value` as its decimal text, after what `out` holds; a number is
/// never `NULL`.
pub fn to_sql(value: &Decimal, out: &mut Vec<u8>) -> (r: IsNull)
    ensures
        r == IsNull::No,
        final(out)@ == old(out)@ + decimal_display(value@),
        reads_back_as(decimal_display(value@), value@),
{
    proof {
        use_type_invariant(value);
    }
    let ghost before = out@;
    write_decimal(value.negative, &value.digits, value.scale, out);
    assert(out@.skip(before.len() as int) == decimal_display(value@));
    IsNull::No
}

/// The decimal texts of bytes.
pub open spec fn byte_texts(bytes: Seq<u8>) -> Seq<Seq<char>> {
    bytes.map_values(|b: u8| decimal(b as nat))
}

/// Bytes as `{:?}` shows a byte slice: `[1, 2, 3]`.
pub open spec fn bytes_debug_text(bytes: Seq<u8>) -> Seq<char> {
    "["@ + join_texts(byte_texts(bytes), ", "@) + "]"@
}

/// The error for a `NULL` where a number was expected.
pub open spec fn unexpected_null_message() -> Seq<char> {
    "Unexpected null for non-null column"@
}

/// The error for bytes that are not a decimal number.
pub open spec fn invalid_decimal_message(bytes: Seq<u8>) -> Seq<char> {
    bytes_debug_text(bytes) + " is not valid decimal number "@
}

fn debug_bytes(bytes: &[u8]) -> (r: String)
    ensures
        r@ == bytes_debug_text(bytes@),
{
    let mut out = String::from_str("[");
    let ghost start = out@;
    let ghost all = byte_texts(bytes@);
    let mut i: usize = 0;
    while i < bytes.len()
        invariant
            i <= bytes@.len(),
            all == byte_texts(bytes@),
            out@ == start + join_texts(all.take(i as int), ", "@),
        decreases bytes@.len() - i,
    {
        assert(all.take(i as int + 1).drop_last() == all.take(i as int));
        if i > 0 {
            push_text(&mut out, ", ");
        }
        push_decimal(&mut out, bytes[i] as u128);
        proof {
            if i == 0 {
                assert(all.take(1) == seq![all[0]]);
            }
        }
        i = i + 1;
    }
    assert(all.take(bytes@.len() as int) == all);
    push_text(&mut out, "]");
    out
}

/// Reads a number from the bytes the server sent: `NULL` is an error, and so
/// are bytes that `BigDecimal::parse_bytes` does not read as a number.
pub fn from_sql(bytes: Option<&[u8]>) -> (r: Result<Decimal, String>)
    ensures
        match bytes {
            None => r matches Err(m) && m@ == unexpected_null_message(),
            Some(b) => match r {
                Ok(d) => decimal_bytes_value(b@) == Some(d@),
                Err(m) => decimal_bytes_value(b@) is None && m@ == invalid_decimal_message(b@),
            },
        },
{
    let bytes = match bytes {
        Some(b) => b,
        None => return Err(String::from_str("Unexpected null for non-null column")),
    };
    match parse_decimal(bytes) {
        Some((negative, digits, scale)) => Ok(Decimal { negative, digits, scale }),
        None => {
            let mut message = debug_bytes(bytes);
            push_text(&mut message, " is not valid decimal number ");
            Err(message)
        },
    }
}

} // verus!
