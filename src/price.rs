use vstd::prelude::*;

verus! {

/// Largest magnitude of an amount, counted in ten-thousandths: a 96-bit
/// magnitude, the range of a 96-bit decimal mantissa.
pub const PRICE4_MAX_UNITS: i128 = 79228162514264337593543950335;

/// Whether `v` ten-thousandths can be held by a `Price4`.
pub open spec fn price_in_range(v: int) -> bool {
    -(PRICE4_MAX_UNITS as int) <= v <= PRICE4_MAX_UNITS as int
}

/// `10` raised to `n`.
pub open spec fn pow10(n: nat) -> int
    decreases n,
{
    if n == 0 {
        1
    } else {
        10 * pow10((n - 1) as nat)
    }
}

/// A fixed-point amount with exactly four fractional digits, held as a
/// whole number of ten-thousandths.
#[derive(Clone, Copy, Debug, PartialEq, Eq)]
pub struct Price4 {
    units: i128,
}

impl Price4 {
    /// The amount, in ten-thousandths.
    pub closed spec fn value(self) -> int {
        self.units as int
    }

    pub open spec fn wf(self) -> bool {
        price_in_range(self.value())
    }

    /// The amount of `v` ten-thousandths, for `v` in range.
    pub closed spec fn from_value(v: int) -> Price4 {
        Price4 { units: v as i128 }
    }

    /// An amount is the one that its value names.
    pub broadcast proof fn lemma_from_value_of_value(p: Price4)
        ensures
            #[trigger] Price4::from_value(p.value()) == p,
    {
    }

    pub broadcast proof fn lemma_value_of_from_value(v: int)
        requires
            price_in_range(v),
        ensures
            #[trigger] Price4::from_value(v).value() == v,
    {
    }

    pub fn zero() -> (r: Price4)
        ensures
            r.wf(),
            r.value() == 0,
    {
        Price4 { units: 0 }
    }

    /// The amount of `units` ten-thousandths, if it is in range.
    pub fn from_units(units: i128) -> (r: Option<Price4>)
        ensures
            r is Some <==> price_in_range(units as int),
            r matches Some(p) ==> p.wf() && p.value() == units,
    {
        if -PRICE4_MAX_UNITS <= units && units <= PRICE4_MAX_UNITS {
            Some(Price4 { units })
        } else {
            None
        }
    }

    /// The amount `mantissa / 10^scale`. Amounts with more than four
    /// fractional digits are refused (`scale` is taken as given: a caller
    /// strips trailing zeros first), as are amounts out of range.
    pub fn from_fixed(mantissa: i128, scale: u32) -> (r: Option<Price4>)
        ensures
            r is Some <==> scale <= 4 && price_in_range(mantissa * pow10((4 - scale) as nat)),
            r matches Some(p) ==> p.wf() && p.value() == mantissa * pow10((4 - scale) as nat),
    {
        if scale > 4 {
            return None;
        }
        let factor: i128 = if scale == 0 {
            10000
        } else if scale == 1 {
            1000
        } else if scale == 2 {
            100
        } else if scale == 3 {
            10
        } else {
            1
        };
        assert(factor == pow10((4 - scale) as nat)) by {
            reveal_with_fuel(pow10, 5);
        }
        match mantissa.checked_mul(factor) {
            Some(units) => Price4::from_units(units),
            None => {
                assert(!price_in_range(mantissa * factor)) by (nonlinear_arith)
                    requires
                        mantissa * factor > i128::MAX || mantissa * factor < i128::MIN,
                ;
                None
            },
        }
    }

    /// The amount, in ten-thousandths.
    pub fn units(&self) -> (r: i128)
        ensures
            r == self.value(),
    {
        self.units
    }

    pub fn is_negative(&self) -> (r: bool)
        ensures
            r == (self.value() < 0),
    {
        self.units < 0
    }

    /// The sum, or `None` where it is out of range.
    pub fn checked_add(self, other: Price4) -> (r: Option<Price4>)
        requires
            self.wf(),
            other.wf(),
        ensures
            r is Some <==> price_in_range(self.value() + other.value()),
            r matches Some(p) ==> p.wf() && p.value() == self.value() + other.value(),
    {
        Price4::from_units(self.units + other.units)
    }

    /// The difference, or `None` where it is out of range.
    pub fn checked_sub(self, other: Price4) -> (r: Option<Price4>)
        requires
            self.wf(),
            other.wf(),
        ensures
            r is Some <==> price_in_range(self.value() - other.value()),
            r matches Some(p) ==> p.wf() && p.value() == self.value() - other.value(),
    {
        Price4::from_units(self.units - other.units)
    }
}

} // verus!
