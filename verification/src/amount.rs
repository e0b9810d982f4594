use vstd::prelude::*;

use crate::error::{OrbitError, OrbitResult};

verus! {

/// Basis points in one whole: a rate of `bps` means `bps / 10_000`.
pub const BPS_DENOMINATOR: u128 = 10_000;

/// A rate expressed in hundredths of a percent.
pub type BasisPoints = u16;

/// A quantity of some asset in its smallest unit.
#[derive(Copy, Clone, Debug, PartialEq, Eq, Structural, PartialOrd, Ord, Hash)]
pub struct Amount(pub u128);

/// `a + b`, or `AmountOverflow` when the sum does not fit.
pub open spec fn add_result(a: Amount, b: Amount) -> OrbitResult<Amount> {
    if a.0 + b.0 <= u128::MAX {
        Ok(Amount((a.0 + b.0) as u128))
    } else {
        Err(OrbitError::AmountOverflow)
    }
}

/// `a - b`, or `InsufficientBalance` when `b` exceeds `a`.
pub open spec fn sub_result(a: Amount, b: Amount) -> OrbitResult<Amount> {
    if b.0 <= a.0 {
        Ok(Amount((a.0 - b.0) as u128))
    } else {
        Err(OrbitError::InsufficientBalance)
    }
}

/// `a - b`, or zero when `b` exceeds `a`.
pub open spec fn saturating_diff(a: Amount, b: Amount) -> Amount {
    if b.0 <= a.0 {
        Amount((a.0 - b.0) as u128)
    } else {
        Amount(0)
    }
}

/// The smaller of two amounts.
pub open spec fn min_amount(a: Amount, b: Amount) -> Amount {
    if a.0 <= b.0 {
        a
    } else {
        b
    }
}

/// `floor(a * numerator / denominator)`, refused with `AmountOverflow` when the
/// denominator is zero or the product `a * numerator` does not fit.
pub open spec fn ratio_floor_result(a: Amount, numerator: u128, denominator: u128) -> OrbitResult<
    Amount,
> {
    if denominator == 0 || a.0 * numerator > u128::MAX {
        Err(OrbitError::AmountOverflow)
    } else {
        Ok(Amount(((a.0 * numerator) / (denominator as int)) as u128))
    }
}

/// `floor(a * bps / 10_000)`, with the refusals of [`ratio_floor_result`].
pub open spec fn bps_floor_result(a: Amount, bps: BasisPoints) -> OrbitResult<Amount> {
    ratio_floor_result(a, bps as u128, BPS_DENOMINATOR)
}

/// The amount a map holds under `key`, zero where it holds none.
pub open spec fn amount_at(m: Map<u64, Amount>, key: u64) -> Amount {
    if m.contains_key(key) {
        m[key]
    } else {
        Amount(0)
    }
}

impl Amount {
    pub fn zero() -> (amount: Self)
        ensures
            amount.0 == 0,
    {
        Amount(0)
    }

    pub fn new(value: u128) -> (amount: Self)
        ensures
            amount.0 == value,
    {
        Amount(value)
    }

    pub fn raw(self) -> (value: u128)
        ensures
            value == self.0,
    {
        self.0
    }

    pub fn checked_add(self, other: Self) -> (result: OrbitResult<Self>)
        ensures
            result == add_result(self, other),
    {
        match self.0.checked_add(other.0) {
            Some(value) => Ok(Amount(value)),
            None => Err(OrbitError::AmountOverflow),
        }
    }

    pub fn checked_sub(self, other: Self) -> (result: OrbitResult<Self>)
        ensures
            result == sub_result(self, other),
    {
        match self.0.checked_sub(other.0) {
            Some(value) => Ok(Amount(value)),
            None => Err(OrbitError::InsufficientBalance),
        }
    }

    pub fn checked_mul(self, factor: u128) -> (result: OrbitResult<Self>)
        ensures
            self.0 * factor <= u128::MAX ==> result == Ok::<Amount, OrbitError>(
                Amount((self.0 * factor) as u128),
            ),
            self.0 * factor > u128::MAX ==> result == Err::<Amount, OrbitError>(
                OrbitError::AmountOverflow,
            ),
    {
        match self.0.checked_mul(factor) {
            Some(value) => Ok(Amount(value)),
            None => Err(OrbitError::AmountOverflow),
        }
    }

    pub fn checked_div(self, divisor: u128) -> (result: OrbitResult<Self>)
        ensures
            divisor == 0 ==> result == Err::<Amount, OrbitError>(OrbitError::AmountOverflow),
            divisor != 0 ==> result == Ok::<Amount, OrbitError>(Amount(self.0 / divisor)),
    {
        if divisor == 0 {
            return Err(OrbitError::AmountOverflow);
        }
        Ok(Amount(self.0 / divisor))
    }

    pub fn saturating_sub(self, other: Self) -> (result: Self)
        ensures
            result == saturating_diff(self, other),
    {
        Amount(self.0.saturating_sub(other.0))
    }

    pub fn min(self, other: Self) -> (result: Self)
        ensures
            result == min_amount(self, other),
    {
        if self.0 <= other.0 {
            self
        } else {
            other
        }
    }

    pub fn mul_bps_floor(self, bps: BasisPoints) -> (result: OrbitResult<Self>)
        ensures
            result == bps_floor_result(self, bps),
    {
        self.mul_ratio_floor(bps as u128, BPS_DENOMINATOR)
    }

    pub fn mul_ratio_floor(self, numerator: u128, denominator: u128) -> (result: OrbitResult<Self>)
        ensures
            result == ratio_floor_result(self, numerator, denominator),
    {
        if denominator == 0 {
            return Err(OrbitError::AmountOverflow);
        }
        match self.0.checked_mul(numerator) {
            Some(product) => Ok(Amount(product / denominator)),
            None => Err(OrbitError::AmountOverflow),
        }
    }
}

/// Subtracting what was just added gives back the amount added to.
pub proof fn add_then_sub_round_trips(a: Amount, b: Amount)
    requires
        add_result(a, b) is Ok,
    ensures
        sub_result(add_result(a, b)->Ok_0, b) == Ok::<Amount, OrbitError>(a),
{
}

/// A share of at most 100% is never more than the whole, and it is refused
/// exactly when `a * bps` overflows.
pub proof fn bps_share_never_exceeds_whole(a: Amount, bps: BasisPoints)
    requires
        bps <= 10_000,
    ensures
        bps_floor_result(a, bps) is Ok <==> a.0 * bps <= u128::MAX,
        bps_floor_result(a, bps) matches Ok(share) ==> share.0 <= a.0,
{
    if a.0 * bps <= u128::MAX {
        assert((a.0 * bps) / 10_000int <= a.0) by (nonlinear_arith)
            requires
                0 <= bps <= 10_000,
                0 <= a.0,
        ;
    }
}

impl Default for Amount {
    fn default() -> (amount: Self)
        ensures
            amount.0 == 0,
    {
        Amount(0)
    }
}

} // verus!
