use std::collections::BTreeMap;
use vstd::prelude::*;

use crate::amount::{ratio_floor_result, Amount, BasisPoints};
use crate::asset::{asset_lookup, Asset, AssetRegistry};
use crate::error::{OrbitError, OrbitResult};
use crate::ids::AssetId;

verus! {

/// A price of one whole unit of an asset in a common quote unit, scaled by
/// 10^8, with the confidence of its source in basis points.
#[derive(Copy, Clone, Debug, PartialEq, Eq, Structural)]
pub struct Price {
    pub asset: AssetId,
    pub price_e8: u128,
    pub confidence_bps: BasisPoints,
    pub slot: u64,
}

/// The latest price of each asset, by asset id.
#[derive(Clone, Debug)]
pub struct Oracle {
    prices: BTreeMap<u64, Price>,
}

impl View for Oracle {
    type V = Map<u64, Price>;

    closed spec fn view(&self) -> Map<u64, Price> {
        self.prices@
    }
}

/// `10^exponent`.
pub open spec fn pow10(exponent: nat) -> nat
    decreases exponent,
{
    if exponent == 0 {
        1
    } else {
        10 * pow10((exponent - 1) as nat)
    }
}

proof fn lemma_pow10_monotone(a: nat, b: nat)
    requires
        a <= b,
    ensures
        pow10(a) <= pow10(b),
    decreases b - a,
{
    if a < b {
        lemma_pow10_monotone(a, (b - 1) as nat);
    }
}

/// The price of `asset`, refused with `PriceNotAvailable` when none was set.
pub open spec fn price_lookup(prices: Map<u64, Price>, asset: u64) -> OrbitResult<Price> {
    if prices.contains_key(asset) {
        Ok(prices[asset])
    } else {
        Err(OrbitError::PriceNotAvailable)
    }
}

/// `10^exponent` as a `u128`, refused with `AmountOverflow` when it does not fit.
pub open spec fn scale_result(exponent: u8) -> OrbitResult<u128> {
    if pow10(exponent as nat) <= u128::MAX {
        Ok(pow10(exponent as nat) as u128)
    } else {
        Err(OrbitError::AmountOverflow)
    }
}

/// `a * b`, refused with `AmountOverflow` when it does not fit.
pub open spec fn mul_result(a: u128, b: u128) -> OrbitResult<u128> {
    if a * b <= u128::MAX {
        Ok((a * b) as u128)
    } else {
        Err(OrbitError::AmountOverflow)
    }
}

/// What `amount` of the source asset is worth in the target asset at the given
/// prices: `floor(amount * p_s * 10^d_t / (p_t * 10^d_s))`, where `p` are the
/// prices and `d` the decimals. A target price of zero is no price.
pub open spec fn convert_result(
    source_asset: Asset,
    target_asset: Asset,
    source_price: Price,
    target_price: Price,
    amount: Amount,
) -> OrbitResult<Amount> {
    if target_price.price_e8 == 0 {
        Err(OrbitError::PriceNotAvailable)
    } else {
        match scale_result(target_asset.decimals) {
            Err(e) => Err(e),
            Ok(target_scale) => match mul_result(source_price.price_e8, target_scale) {
                Err(e) => Err(e),
                Ok(numerator) => match scale_result(source_asset.decimals) {
                    Err(e) => Err(e),
                    Ok(source_scale) => match mul_result(target_price.price_e8, source_scale) {
                        Err(e) => Err(e),
                        Ok(denominator) => ratio_floor_result(amount, numerator, denominator),
                    },
                },
            },
        }
    }
}

/// A quote of `amount` of `source` in `target`: both assets must be
/// registered and enabled, and both must have a price.
pub open spec fn quote_result(
    assets: Map<u64, Asset>,
    prices: Map<u64, Price>,
    source: u64,
    target: u64,
    amount: Amount,
) -> OrbitResult<Amount> {
    match asset_lookup(assets, source) {
        Err(e) => Err(e),
        Ok(source_asset) => match asset_lookup(assets, target) {
            Err(e) => Err(e),
            Ok(target_asset) => match price_lookup(prices, source) {
                Err(e) => Err(e),
                Ok(source_price) => match price_lookup(prices, target) {
                    Err(e) => Err(e),
                    Ok(target_price) => convert_result(
                        source_asset,
                        target_asset,
                        source_price,
                        target_price,
                        amount,
                    ),
                },
            },
        },
    }
}

fn scale(exponent: u8) -> (result: OrbitResult<u128>)
    ensures
        result == scale_result(exponent),
{
    let mut value: u128 = 1;
    let mut i: u8 = 0;
    while i < exponent
        invariant
            i <= exponent,
            value == pow10(i as nat),
        decreases exponent - i,
    {
        match value.checked_mul(10) {
            Some(next) => {
                value = next;
            },
            None => {
                proof {
                    lemma_pow10_monotone((i + 1) as nat, exponent as nat);
                }
                return Err(OrbitError::AmountOverflow);
            },
        }
        i = i + 1;
    }
    Ok(value)
}

fn checked_product(a: u128, b: u128) -> (result: OrbitResult<u128>)
    ensures
        result == mul_result(a, b),
{
    match a.checked_mul(b) {
        Some(product) => Ok(product),
        None => Err(OrbitError::AmountOverflow),
    }
}

impl Default for Oracle {
    fn default() -> (oracle: Self)
        ensures
            oracle@ == Map::<u64, Price>::empty(),
    {
        Oracle { prices: BTreeMap::new() }
    }
}

impl Oracle {
    /// Stores `price` as the latest price of its asset.
    pub fn set_price(&mut self, price: Price)
        ensures
            final(self)@ == old(self)@.insert(price.asset.0, price),
    {
        self.prices.insert(price.asset.0, price);
    }

    pub fn price(&self, asset: AssetId) -> (result: OrbitResult<Price>)
        ensures
            result == price_lookup(self@, asset.0),
    {
        match self.prices.get(&asset.0) {
            Some(price) => Ok(*price),
            None => Err(OrbitError::PriceNotAvailable),
        }
    }

    pub fn quote(&self, assets: &AssetRegistry, source: AssetId, target: AssetId, amount: Amount) -> (result:
        OrbitResult<Amount>)
        ensures
            result == quote_result(assets@, self@, source.0, target.0, amount),
    {
        let source_asset = assets.get(source)?;
        let target_asset = assets.get(target)?;
        let source_price = self.price(source)?;
        let target_price = self.price(target)?;
        if target_price.price_e8 == 0 {
            return Err(OrbitError::PriceNotAvailable);
        }
        let target_scale = scale(target_asset.decimals)?;
        let numerator = checked_product(source_price.price_e8, target_scale)?;
        let source_scale = scale(source_asset.decimals)?;
        let denominator = checked_product(target_price.price_e8, source_scale)?;
        amount.mul_ratio_floor(numerator, denominator)
    }
}

} // verus!
