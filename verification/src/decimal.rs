use vstd::prelude::*;

verus! {

/// The decimal digit string that `fixed_decimal` renders for the value
/// `mantissa * 10^exponent`.  The rendering depends on those two integers
/// alone, so it is only given a name here; [`decimal_string`] produces it.
pub uninterp spec fn decimal_text(mantissa: int, exponent: int) -> Seq<char>;

/// Relies on `fixed_decimal::Decimal`: building a decimal with
/// `Decimal::from(mantissa)` and `multiply_pow10(exponent)` and rendering it
/// with `Display` is a pure function of `mantissa` and `exponent`.
/// `multiply_pow10` documents that it never fails (an overflowing shift
/// yields zero), so this call cannot panic.
#[verifier::external_body]
pub fn decimal_string(mantissa: i64, exponent: i8) -> (r: String)
    ensures
        r@ == decimal_text(mantissa as int, exponent as int),
{
    let mut d = fixed_decimal::Decimal::from(mantissa);
    d.multiply_pow10(exponent as i16);
    d.to_string()
}

} // verus!
