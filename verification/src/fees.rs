//! Fee computation: given a trade value in units and a fee schedule, split
//! the value into three fee components (each `value * rate / FEE_DENOMINATOR`,
//! truncating) and the residual that is traded against the pools.

use vstd::prelude::*;
use vstd::arithmetic::div_mod::{
    lemma_div_by_multiple, lemma_div_is_ordered, lemma_fundamental_div_mod, lemma_mod_bound,
};
use vstd::arithmetic::mul::{lemma_mul_inequality, lemma_mul_is_commutative};

use crate::errors::Error;
use crate::{fees_valid, Fees, FEE_DENOMINATOR, MAX_FEE};

verus! {

/// One fee component: `value * rate / FEE_DENOMINATOR`, truncating.
pub open spec fn fee_part(value: nat, rate: nat) -> nat {
    (value * rate) / (FEE_DENOMINATOR as nat)
}

/// The three fee components of a trade and the residual value left over.
#[derive(Clone, Copy, PartialEq, Eq, Structural)]
pub struct FeeSplit {
    pub fee: u128,
    pub treasury_fee: u128,
    pub distributor_fee: u128,
    pub remaining: u128,
}

/// Whether computing some component of the split overflows a `u128`
/// before the truncating division.
pub open spec fn fee_split_overflows(value: u128, fees: Fees) -> bool {
    ||| value * fees.fee > u128::MAX
    ||| value * fees.treasury_fee > u128::MAX
    ||| value * fees.distributor_fee > u128::MAX
}

/// One component is at most `value / 20` whenever its rate is within bound.
proof fn lemma_fee_part_le_twentieth(value: nat, rate: nat)
    requires
        rate <= MAX_FEE,
    ensures
        fee_part(value, rate) <= value / 20,
{
    lemma_mul_inequality(rate as int, MAX_FEE as int, value as int);
    lemma_mul_is_commutative(rate as int, value as int);
    lemma_mul_is_commutative(MAX_FEE as int, value as int);
    assert(value * rate <= value * (MAX_FEE as nat));
    lemma_div_is_ordered(
        (value * rate) as int,
        (value * (MAX_FEE as nat)) as int,
        FEE_DENOMINATOR as int,
    );
    // value * 500 / 10000 == value / 20, since 10000 == 500 * 20
    assert((value * 500) / 10000 == value / 20) by {
        lemma_div_by_multiple(value as int, 500);
        vstd::arithmetic::div_mod::lemma_div_denominator(
            (value * 500) as int,
            500,
            20,
        );
    };
}

/// The fee components sum to no more than the traded value, for any fee
/// schedule whose rates are each within `MAX_FEE`; the residual
/// `value - fee - treasury_fee - distributor_fee` therefore never underflows.
pub proof fn lemma_fee_components_bounded(value: nat, fees: Fees)
    requires
        fees_valid(fees),
    ensures
        fee_part(value, fees.fee as nat) + fee_part(value, fees.treasury_fee as nat) + fee_part(
            value,
            fees.distributor_fee as nat,
        ) <= value,
{
    lemma_fee_part_le_twentieth(value, fees.fee as nat);
    lemma_fee_part_le_twentieth(value, fees.treasury_fee as nat);
    lemma_fee_part_le_twentieth(value, fees.distributor_fee as nat);
    lemma_fundamental_div_mod(value as int, 20);
    lemma_mod_bound(value as int, 20);
}

/// With any positive value, the residual after fees is still positive:
/// the three components leave at least one unit behind.
pub proof fn lemma_fee_residual_positive(value: nat, fees: Fees)
    requires
        fees_valid(fees),
        1 <= value,
    ensures
        fee_part(value, fees.fee as nat) + fee_part(value, fees.treasury_fee as nat) + fee_part(
            value,
            fees.distributor_fee as nat,
        ) < value,
{
    lemma_fee_part_le_twentieth(value, fees.fee as nat);
    lemma_fee_part_le_twentieth(value, fees.treasury_fee as nat);
    lemma_fee_part_le_twentieth(value, fees.distributor_fee as nat);
    lemma_fundamental_div_mod(value as int, 20);
    lemma_mod_bound(value as int, 20);
}

/// Multiply a value by a fee rate and divide by the denominator, detecting
/// overflow of the intermediate product.
fn mul_rate(value: u128, rate: u64) -> (r: Result<u128, Error>)
    ensures
        match r {
            Ok(f) => value * rate <= u128::MAX && f == fee_part(value as nat, rate as nat),
            Err(e) => e == Error::Arithmetic && value * rate > u128::MAX,
        },
{
    if rate == 0 {
        proof {
            vstd::arithmetic::mul::lemma_mul_basics(value as int);
        }
        return Ok(0);
    }
    let rate_wide = rate as u128;
    if value > u128::MAX / rate_wide {
        proof {
            // value >= MAX / rate + 1 implies value * rate > MAX
            let q = (u128::MAX / rate_wide) as int;
            lemma_fundamental_div_mod(u128::MAX as int, rate_wide as int);
            lemma_mod_bound(u128::MAX as int, rate_wide as int);
            lemma_mul_inequality(q + 1, value as int, rate_wide as int);
            vstd::arithmetic::mul::lemma_mul_is_distributive_add(rate_wide as int, q, 1);
            vstd::arithmetic::mul::lemma_mul_basics(rate_wide as int);
            lemma_mul_is_commutative(q + 1, rate_wide as int);
            lemma_mul_is_commutative(value as int, rate_wide as int);
        }
        return Err(Error::Arithmetic);
    }
    proof {
        // value <= MAX / rate implies value * rate <= MAX
        let q = (u128::MAX / rate_wide) as int;
        lemma_fundamental_div_mod(u128::MAX as int, rate_wide as int);
        lemma_mod_bound(u128::MAX as int, rate_wide as int);
        lemma_mul_inequality(value as int, q, rate_wide as int);
        lemma_mul_is_commutative(q, rate_wide as int);
        lemma_mul_is_commutative(value as int, rate_wide as int);
    }
    let product = value * rate_wide;
    Ok(product / FEE_DENOMINATOR)
}

/// Split a trade value according to a fee schedule. Each component is
/// `value * rate / FEE_DENOMINATOR`, truncating; the residual is what the
/// pools are traded against. Fails exactly when an intermediate product
/// overflows a `u128`.
pub fn compute_fee_split(value: u128, fees: &Fees) -> (r: Result<FeeSplit, Error>)
    requires
        fees_valid(*fees),
    ensures
        match r {
            Ok(s) => {
                &&& !fee_split_overflows(value, *fees)
                &&& s.fee == fee_part(value as nat, fees.fee as nat)
                &&& s.treasury_fee == fee_part(value as nat, fees.treasury_fee as nat)
                &&& s.distributor_fee == fee_part(value as nat, fees.distributor_fee as nat)
                &&& s.fee + s.treasury_fee + s.distributor_fee <= value
                &&& s.remaining == value - s.fee - s.treasury_fee - s.distributor_fee
                &&& 1 <= value ==> 1 <= s.remaining
            },
            Err(e) => e == Error::Arithmetic && fee_split_overflows(value, *fees),
        },
{
    let fee = match mul_rate(value, fees.fee) {
        Ok(f) => f,
        Err(e) => {
            return Err(e);
        },
    };
    let treasury_fee = match mul_rate(value, fees.treasury_fee) {
        Ok(f) => f,
        Err(e) => {
            return Err(e);
        },
    };
    let distributor_fee = match mul_rate(value, fees.distributor_fee) {
        Ok(f) => f,
        Err(e) => {
            return Err(e);
        },
    };
    proof {
        lemma_fee_components_bounded(value as nat, *fees);
        if value >= 1 {
            lemma_fee_residual_positive(value as nat, *fees);
        }
    }
    let remaining = value - fee - treasury_fee - distributor_fee;
    Ok(FeeSplit { fee, treasury_fee, distributor_fee, remaining })
}

/// Check that every rate of a fee schedule is within the allowed bound.
pub fn validate_fees(fees: &Fees) -> (r: Result<(), Error>)
    ensures
        match r {
            Ok(()) => fees_valid(*fees),
            Err(e) => e == Error::FeeTooHigh && !fees_valid(*fees),
        },
{
    if fees.fee > MAX_FEE || fees.treasury_fee > MAX_FEE || fees.distributor_fee > MAX_FEE {
        return Err(Error::FeeTooHigh);
    }
    Ok(())
}

} // verus!
