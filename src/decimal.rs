use rust_decimal::Decimal;
use vstd::prelude::*;

use crate::price::{pow10, price_in_range, Price4};

verus! {

#[verifier::external_type_specification]
#[verifier::external_body]
pub struct ExDecimal(Decimal);

/// The mantissa of a decimal: its digits, with its sign.
pub uninterp spec fn dec_mantissa(d: Decimal) -> i128;

/// The scale of a decimal: the power of ten that divides its mantissa.
pub uninterp spec fn dec_scale(d: Decimal) -> u32;

/// A decimal with its trailing zeros stripped.
pub uninterp spec fn dec_normalize(d: Decimal) -> Decimal;

/// Relies on `Decimal::mantissa`: the 96-bit magnitude of the number
/// (`lo | mid << 32 | hi << 64`, each part 32 bits) with its sign, a
/// function of the number alone.
pub assume_specification[ Decimal::mantissa ](d: &Decimal) -> (r: i128)
    ensures
        r == dec_mantissa(*d),
        -0x1_0000_0000_0000_0000_0000_0000 < r < 0x1_0000_0000_0000_0000_0000_0000,
;

/// Relies on `Decimal::scale`: the power of ten that divides the mantissa, a
/// function of the number alone.
pub assume_specification[ Decimal::scale ](d: &Decimal) -> (r: u32)
    ensures
        r == dec_scale(*d),
;

/// Relies on `Decimal::normalize`: the same number without trailing zeros,
/// a function of the number alone.
pub assume_specification[ Decimal::normalize ](d: &Decimal) -> (r: Decimal)
    ensures
        r == dec_normalize(*d),
;

impl Price4 {
    /// The amount that `d` holds, or `None` where it has more than four
    /// fractional digits (trailing zeros aside) or is out of range: such an
    /// amount is refused, never rounded. What is done with the digits is
    /// `Price4::from_fixed`.
    pub fn from_decimal(d: &Decimal) -> (r: Option<Price4>)
        ensures
            ({
                let m = dec_mantissa(dec_normalize(*d));
                let s = dec_scale(dec_normalize(*d));
                &&& r is Some <==> s <= 4 && price_in_range(m * pow10((4 - s) as nat))
                &&& r matches Some(p) ==> p.wf() && p.value() == m * pow10((4 - s) as nat)
            }),
    {
        let n = d.normalize();
        Price4::from_fixed(n.mantissa(), n.scale())
    }
}

} // verus!
