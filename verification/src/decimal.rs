//! Exact decimal numbers for paper trading: a mantissa of at most 96 bits
//! and a scale of 0 to 28 decimal places. Arithmetic is done by
//! `rust_decimal`; this module states what is known of it.

use vstd::prelude::*;
use vstd::string::*;
use crate::fixed::{decimal, digit_of, pow10};

verus! {

/// Largest mantissa magnitude, `2^96 - 1`.
pub const MAX_MANTISSA: i128 = 79228162514264337593543950335;

/// Most decimal places.
pub const MAX_DECIMAL_SCALE: u32 = 28;

/// Mantissa and scale within the representable range.
pub open spec fn valid_parts(p: (int, nat)) -> bool {
    -MAX_MANTISSA <= p.0 <= MAX_MANTISSA && p.1 <= MAX_DECIMAL_SCALE
}

/// The decimal `mantissa / 10^scale`.
#[derive(Debug, Clone, Copy)]
pub struct Dec {
    mantissa: i128,
    scale: u32,
}

impl View for Dec {
    type V = (int, nat);

    closed spec fn view(&self) -> (int, nat) {
        (self.mantissa as int, self.scale as nat)
    }
}

/// Whether two decimals denote values in order `a <= b`.
pub open spec fn value_le(a: (int, nat), b: (int, nat)) -> bool {
    a.0 * pow10(b.1) <= b.0 * pow10(a.1)
}

/// What `Decimal::checked_add` returns, as mantissa and scale.
pub uninterp spec fn decimal_sum(a: (int, nat), b: (int, nat)) -> Option<(int, nat)>;

/// What `Decimal::checked_sub` returns.
pub uninterp spec fn decimal_difference(a: (int, nat), b: (int, nat)) -> Option<(int, nat)>;

/// What `Decimal::checked_mul` returns.
pub uninterp spec fn decimal_product(a: (int, nat), b: (int, nat)) -> Option<(int, nat)>;

/// What `Decimal::checked_div` returns.
pub uninterp spec fn decimal_quotient(a: (int, nat), b: (int, nat)) -> Option<(int, nat)>;

/// The last `width` decimal digits of `n`, with leading zeros.
pub open spec fn padded_digits(n: nat, width: nat) -> Seq<char> {
    Seq::new(width, |i: int| digit_of((n as int / pow10((width - 1 - i) as nat)) % 10))
}

/// The text `Decimal`'s `Display` writes for these parts: a '-' for a
/// negative mantissa, the integer digits ("0" when there are none), then,
/// with a positive scale, '.' and exactly `scale` fractional digits.
pub open spec fn decimal_string(a: (int, nat)) -> Seq<char> {
    let m = if a.0 < 0 { -a.0 } else { a.0 };
    let d = pow10(a.1);
    (if a.0 < 0 { seq!['-'] } else { Seq::<char>::empty() }) + decimal((m / d) as nat) + (if a.1 > 0 {
        seq!['.'] + padded_digits((m % d) as nat, a.1)
    } else {
        Seq::<char>::empty()
    })
}

/// The parts of a decimal rounded to `dp` places, halves to the even
/// neighbour (`Decimal::round_dp`); with `dp` places or fewer it is as it is.
pub open spec fn rounded_dp(a: (int, nat), dp: nat) -> (int, nat) {
    if a.1 <= dp {
        a
    } else {
        let d = pow10((a.1 - dp) as nat);
        let m = if a.0 < 0 { -a.0 } else { a.0 };
        let q = m / d;
        let r = m % d;
        let q2 = if 2 * r > d || (2 * r == d && q % 2 == 1) { q + 1 } else { q };
        (if a.0 < 0 { -q2 } else { q2 }, dp)
    }
}

/// The sign `Decimal::checked_sub` gives `a - b`: positive exactly when
/// `a > b`, negative exactly when `a < b`.
pub open spec fn difference_keeps_sign(a: (int, nat), b: (int, nat)) -> bool {
    decimal_difference(a, b) matches Some(z) ==> ((z.0 > 0 <==> !value_le(a, b)) && (z.0 < 0 <==> !value_le(b, a)))
}

/// The sign `Decimal::checked_div` gives `a / b` for a positive `b`: not
/// opposite to that of `a` (it may round to zero).
pub open spec fn quotient_keeps_sign(a: (int, nat), b: (int, nat)) -> bool {
    b.0 > 0 ==> (decimal_quotient(a, b) matches Some(q) ==> (a.0 >= 0 ==> q.0 >= 0) && (a.0 <= 0 ==> q.0 <= 0))
}

/// The sign `Decimal::checked_mul` gives `a * b`: zero with a zero factor,
/// and for a positive `b` not opposite to that of `a`.
pub open spec fn product_keeps_sign(a: (int, nat), b: (int, nat)) -> bool {
    &&& b.0 > 0 ==> (decimal_product(a, b) matches Some(p) ==> (a.0 >= 0 ==> p.0 >= 0) && (a.0 <= 0 ==> p.0 <= 0))
    &&& a.0 == 0 || b.0 == 0 ==> (decimal_product(a, b) matches Some(p) ==> p.0 == 0)
}

/// A decimal result as parts.
pub open spec fn parts_of(r: Option<Dec>) -> Option<(int, nat)> {
    match r {
        Some(d) => Some(d@),
        None => None,
    }
}

impl Dec {
    #[verifier::type_invariant]
    closed spec fn inv(self) -> bool {
        valid_parts(self@)
    }

    /// Zero (mantissa 0, scale 0).
    pub fn zero() -> (r: Dec)
        ensures
            r@ == (0int, 0nat),
    {
        Dec { mantissa: 0, scale: 0 }
    }

    /// The decimal with these parts, when they are representable.
    pub fn from_parts(mantissa: i128, scale: u32) -> (r: Option<Dec>)
        ensures
            r is Some <==> valid_parts((mantissa as int, scale as nat)),
            r matches Some(d) ==> d@ == (mantissa as int, scale as nat),
    {
        if -MAX_MANTISSA <= mantissa && mantissa <= MAX_MANTISSA && scale <= MAX_DECIMAL_SCALE {
            Some(Dec { mantissa, scale })
        } else {
            None
        }
    }

    /// A market value in units of `10^-8` as a decimal with scale 8.
    pub fn from_fixed(units: i128) -> (r: Dec)
        requires
            -MAX_MANTISSA <= units <= MAX_MANTISSA,
        ensures
            r@ == (units as int, 8nat),
    {
        Dec { mantissa: units, scale: 8 }
    }

    pub fn mantissa(&self) -> (r: i128)
        ensures
            r == self@.0,
            -MAX_MANTISSA <= r <= MAX_MANTISSA,
    {
        proof {
            use_type_invariant(self);
        }
        self.mantissa
    }

    pub fn scale(&self) -> (r: u32)
        ensures
            r == self@.1,
            r <= MAX_DECIMAL_SCALE,
    {
        proof {
            use_type_invariant(self);
        }
        self.scale
    }

    /// Whether the value is zero.
    pub fn is_zero(&self) -> (r: bool)
        ensures
            r == (self@.0 == 0),
    {
        self.mantissa == 0
    }

    /// Whether the value is below zero.
    pub fn is_negative(&self) -> (r: bool)
        ensures
            r == (self@.0 < 0),
    {
        self.mantissa < 0
    }

    /// Whether the value is above zero.
    pub fn is_positive(&self) -> (r: bool)
        ensures
            r == (self@.0 > 0),
    {
        self.mantissa > 0
    }
}

/// `Decimal::checked_add`: the sum, `None` on overflow. Its result is named
/// `decimal_sum` of the operands.
#[verifier::external_body]
pub(crate) fn dec_add(a: Dec, b: Dec) -> (r: Option<Dec>)
    ensures
        parts_of(r) == decimal_sum(a@, b@),
{
    let x = rust_decimal::Decimal::from_i128_with_scale(a.mantissa, a.scale);
    let y = rust_decimal::Decimal::from_i128_with_scale(b.mantissa, b.scale);
    match x.checked_add(y) {
        Some(z) => Some(Dec { mantissa: z.mantissa(), scale: z.scale() }),
        None => None,
    }
}

/// `Decimal::checked_sub`: the difference, `None` on overflow. Its result
/// is named `decimal_difference` of the operands. Its sign is that of
/// `a - b`: an exact difference has at most 28 decimal places, so rounding
/// it to fit 96 bits never brings a nonzero difference to zero.
#[verifier::external_body]
pub(crate) fn dec_sub(a: Dec, b: Dec) -> (r: Option<Dec>)
    ensures
        parts_of(r) == decimal_difference(a@, b@),
        r matches Some(z) ==> ((z@.0 > 0 <==> !value_le(a@, b@)) && (z@.0 < 0 <==> !value_le(b@, a@))),
{
    let x = rust_decimal::Decimal::from_i128_with_scale(a.mantissa, a.scale);
    let y = rust_decimal::Decimal::from_i128_with_scale(b.mantissa, b.scale);
    match x.checked_sub(y) {
        Some(z) => Some(Dec { mantissa: z.mantissa(), scale: z.scale() }),
        None => None,
    }
}

/// `Decimal::checked_mul`: the product, `None` on overflow. Its result is
/// named `decimal_product` of the operands.
/// A product by a positive factor is not of the opposite sign to the
/// other factor (it may round to zero); a product with a zero factor is
/// zero.
#[verifier::external_body]
pub(crate) fn dec_mul(a: Dec, b: Dec) -> (r: Option<Dec>)
    ensures
        parts_of(r) == decimal_product(a@, b@),
        b@.0 > 0 ==> (r matches Some(p) ==> (a@.0 >= 0 ==> p@.0 >= 0) && (a@.0 <= 0 ==> p@.0 <= 0)),
        a@.0 == 0 || b@.0 == 0 ==> (r matches Some(p) ==> p@.0 == 0),
{
    let x = rust_decimal::Decimal::from_i128_with_scale(a.mantissa, a.scale);
    let y = rust_decimal::Decimal::from_i128_with_scale(b.mantissa, b.scale);
    match x.checked_mul(y) {
        Some(z) => Some(Dec { mantissa: z.mantissa(), scale: z.scale() }),
        None => None,
    }
}

/// `Decimal::checked_div`: the quotient, `None` for a zero divisor (the
/// division reports a zero divisor as an error) or on overflow. Its result
/// is named `decimal_quotient` of the operands.
/// A quotient by a positive divisor is not of the opposite sign to the
/// dividend (it may round to zero).
#[verifier::external_body]
pub(crate) fn dec_div(a: Dec, b: Dec) -> (r: Option<Dec>)
    ensures
        parts_of(r) == decimal_quotient(a@, b@),
        b@.0 > 0 ==> (r matches Some(q) ==> (a@.0 >= 0 ==> q@.0 >= 0) && (a@.0 <= 0 ==> q@.0 <= 0)),
        b@.0 == 0 ==> r is None,
{
    let x = rust_decimal::Decimal::from_i128_with_scale(a.mantissa, a.scale);
    let y = rust_decimal::Decimal::from_i128_with_scale(b.mantissa, b.scale);
    match x.checked_div(y) {
        Some(z) => Some(Dec { mantissa: z.mantissa(), scale: z.scale() }),
        None => None,
    }
}

/// `Decimal`'s `<=`: compares the denoted values exactly (the comparison
/// rescales to a common scale, and an operand too large to rescale is the
/// larger in magnitude).
#[verifier::external_body]
pub(crate) fn dec_le(a: Dec, b: Dec) -> (r: bool)
    ensures
        r == value_le(a@, b@),
{
    let x = rust_decimal::Decimal::from_i128_with_scale(a.mantissa, a.scale);
    let y = rust_decimal::Decimal::from_i128_with_scale(b.mantissa, b.scale);
    x <= y
}

/// `Decimal`'s `Display` (`to_string`): the text `decimal_string` states
/// (the digits of the mantissa with the point `scale` places from the
/// right, a '-' before a negative mantissa).
#[verifier::external_body]
fn dec_to_string(a: Dec) -> (r: String)
    ensures
        r@ == decimal_string(a@),
{
    rust_decimal::Decimal::from_i128_with_scale(a.mantissa, a.scale).to_string()
}

/// `Decimal::round_dp`: the value rounded to `dp` places, halves to the
/// even neighbour (`rounded_dp`).
#[verifier::external_body]
fn dec_round_dp(a: Dec, dp: u32) -> (r: Dec)
    ensures
        r@ == rounded_dp(a@, dp as nat),
{
    let z = rust_decimal::Decimal::from_i128_with_scale(a.mantissa, a.scale).round_dp(dp);
    Dec { mantissa: z.mantissa(), scale: z.scale() }
}

/// A decimal rounded to `scale` places and written out, e.g. 45000.456 at
/// two places is "45000.46".
pub fn format_decimal(value: Dec, scale: u32) -> (r: String)
    ensures
        r@ == decimal_string(rounded_dp(value@, scale as nat)),
{
    dec_to_string(dec_round_dp(value, scale))
}

/// Like `format_decimal`, with a '+' before a value above zero.
pub fn format_signed_decimal(value: Dec, scale: u32) -> (r: String)
    ensures
        r@ == (if rounded_dp(value@, scale as nat).0 > 0 {
            seq!['+'] + decimal_string(rounded_dp(value@, scale as nat))
        } else {
            decimal_string(rounded_dp(value@, scale as nat))
        }),
{
    let rounded = dec_round_dp(value, scale);
    if rounded.is_negative() || rounded.is_zero() {
        dec_to_string(rounded)
    } else {
        let mut s = String::from_str("+");
        s.append(dec_to_string(rounded).as_str());
        proof {
            reveal_strlit("+");
        }
        s
    }
}

} // verus!
