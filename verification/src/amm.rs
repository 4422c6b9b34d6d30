//! Share issuance: given a target outcome and a fee-adjusted payment in
//! units, compute the shares issued while preserving the product-style
//! liquidity invariant across all other outcomes' pools.
//!
//! Starting from the target outcome's pool, every other pool is folded in
//! strictly by index order (the order is part of the algorithm: changing it
//! changes rounding), each step replacing the running balance `e` by
//! `ceil(e * pool / (pool + amount))`. The shares issued are
//! `pool_target + amount - final_balance`. The intermediate products exceed
//! 128 bits, so the fold step runs on arbitrary-precision integers.

use vstd::arithmetic::div_mod::{
    lemma_div_is_ordered, lemma_div_is_ordered_by_denominator, lemma_div_multiples_vanish_fancy,
    lemma_div_plus_one,
};
use vstd::arithmetic::mul::{lemma_mul_basics, lemma_mul_inequality, lemma_mul_is_commutative};
use vstd::prelude::*;

use num_bigint::BigUint;
use num_traits::ToPrimitive;

use crate::errors::Error;
use crate::state::{avail_pools, Market};

verus! {

/// Integer division rounded up.
pub open spec fn ceil_div(n: nat, d: nat) -> nat
    recommends
        1 <= d,
{
    (((n + d) - 1) / (d as int)) as nat
}

/// The running balance after folding in the pools from position `j`
/// onward (skipping the target outcome `skip`), starting from `acc`.
pub open spec fn ending_from(pools: Seq<nat>, skip: int, amount: nat, j: int, acc: nat) -> nat
    decreases pools.len() - j,
{
    if j < 0 || j >= pools.len() {
        acc
    } else if j == skip {
        ending_from(pools, skip, amount, j + 1, acc)
    } else {
        ending_from(pools, skip, amount, j + 1, ceil_div(acc * pools[j], pools[j] + amount))
    }
}

/// The balance left in the target outcome's pool after a trade of `amount`
/// against the given pools.
pub open spec fn ending_balance(pools: Seq<nat>, skip: int, amount: nat) -> nat
    recommends
        0 <= skip < pools.len(),
{
    ending_from(pools, skip, amount, 0, pools[skip])
}

/// Shares issued for a payment of `amount` units against the given pools,
/// buying the outcome at position `skip`.
pub open spec fn shares_issued(pools: Seq<nat>, skip: int, amount: nat) -> int
    recommends
        0 <= skip < pools.len(),
{
    pools[skip] + amount - ending_balance(pools, skip, amount)
}

/// A ceiling quotient never exceeds the first factor of its numerator when
/// the second factor is at most the divisor.
proof fn lemma_ceil_div_le(acc: nat, p: nat, d: nat)
    requires
        1 <= d,
        p <= d,
    ensures
        ceil_div(acc * p, d) <= acc,
{
    lemma_mul_inequality(p as int, d as int, acc as int);
    lemma_mul_is_commutative(p as int, acc as int);
    lemma_mul_is_commutative(d as int, acc as int);
    lemma_div_is_ordered((acc * p + d - 1) as int, (acc * d + d - 1) as int, d as int);
    lemma_div_multiples_vanish_fancy(acc as int, (d - 1) as int, d as int);
}

/// A ceiling quotient of a positive numerator is positive.
proof fn lemma_ceil_div_ge_one(n: nat, d: nat)
    requires
        1 <= n,
        1 <= d,
    ensures
        1 <= ceil_div(n, d),
{
    lemma_div_is_ordered(d as int, (n + d - 1) as int, d as int);
    lemma_div_multiples_vanish_fancy(1, 0, d as int);
    lemma_mul_basics(d as int);
}

/// Ceiling division is monotone in the numerator.
proof fn lemma_ceil_div_mono_num(n1: nat, n2: nat, d: nat)
    requires
        n1 <= n2,
        1 <= d,
    ensures
        ceil_div(n1, d) <= ceil_div(n2, d),
{
    lemma_div_is_ordered((n1 + d - 1) as int, (n2 + d - 1) as int, d as int);
}

/// Ceiling division is antitone in the divisor.
proof fn lemma_ceil_div_mono_denom(n: nat, d1: nat, d2: nat)
    requires
        1 <= d1 <= d2,
    ensures
        ceil_div(n, d2) <= ceil_div(n, d1),
{
    if n == 0 {
        lemma_mul_basics(d1 as int);
        lemma_mul_basics(d2 as int);
        lemma_div_multiples_vanish_fancy(0, (d1 - 1) as int, d1 as int);
        lemma_div_multiples_vanish_fancy(0, (d2 - 1) as int, d2 as int);
    } else {
        lemma_div_plus_one((n - 1) as int, d1 as int);
        lemma_div_plus_one((n - 1) as int, d2 as int);
        lemma_div_is_ordered_by_denominator((n - 1) as int, d1 as int, d2 as int);
    }
}

/// One fold step is monotone: a smaller balance and a larger payment give
/// a smaller (or equal) next balance.
proof fn lemma_ceil_step_mono(acc1: nat, acc2: nat, p: nat, a1: nat, a2: nat)
    requires
        1 <= p,
        acc2 <= acc1,
        a1 <= a2,
    ensures
        ceil_div(acc2 * p, p + a2) <= ceil_div(acc1 * p, p + a1),
{
    lemma_mul_inequality(acc2 as int, acc1 as int, p as int);
    lemma_mul_is_commutative(acc2 as int, p as int);
    lemma_mul_is_commutative(acc1 as int, p as int);
    lemma_ceil_div_mono_num(acc2 * p, acc1 * p, p + a2);
    lemma_ceil_div_mono_denom(acc1 * p, p + a1, p + a2);
}

/// The fold keeps the running balance between one and its starting value,
/// whenever every folded pool is positive.
pub proof fn lemma_ending_from_bounds(pools: Seq<nat>, skip: int, amount: nat, j: int, acc: nat)
    requires
        forall|k: int| 0 <= k < pools.len() && k != skip ==> 1 <= #[trigger] pools[k],
        1 <= acc,
    ensures
        1 <= ending_from(pools, skip, amount, j, acc) <= acc,
    decreases pools.len() - j,
{
    if j < 0 || j >= pools.len() {
    } else if j == skip {
        lemma_ending_from_bounds(pools, skip, amount, j + 1, acc);
    } else {
        let p = pools[j];
        let acc2 = ceil_div(acc * p, p + amount);
        lemma_ceil_div_le(acc, p, p + amount);
        assert(1 <= acc * p) by (nonlinear_arith)
            requires
                1 <= acc,
                1 <= p,
        ;
        lemma_ceil_div_ge_one(acc * p, p + amount);
        lemma_ending_from_bounds(pools, skip, amount, j + 1, acc2);
    }
}

/// The fold is monotone: a smaller starting balance and a larger payment
/// give a smaller (or equal) final balance.
pub proof fn lemma_ending_from_mono(
    pools: Seq<nat>,
    skip: int,
    a1: nat,
    a2: nat,
    j: int,
    acc1: nat,
    acc2: nat,
)
    requires
        forall|k: int| 0 <= k < pools.len() && k != skip ==> 1 <= #[trigger] pools[k],
        a1 <= a2,
        acc2 <= acc1,
    ensures
        ending_from(pools, skip, a2, j, acc2) <= ending_from(pools, skip, a1, j, acc1),
    decreases pools.len() - j,
{
    if j < 0 || j >= pools.len() {
    } else if j == skip {
        lemma_ending_from_mono(pools, skip, a1, a2, j + 1, acc1, acc2);
    } else {
        let p = pools[j];
        lemma_ceil_step_mono(acc1, acc2, p, a1, a2);
        lemma_ending_from_mono(
            pools,
            skip,
            a1,
            a2,
            j + 1,
            ceil_div(acc1 * p, p + a1),
            ceil_div(acc2 * p, p + a2),
        );
    }
}

/// The shares issued for a payment of `amount` are at least `amount` and
/// leave at least one unit in the target pool.
pub proof fn lemma_shares_issued_bounds(pools: Seq<nat>, outcome: int, amount: nat)
    requires
        0 <= outcome < pools.len(),
        forall|k: int| 0 <= k < pools.len() ==> 1 <= #[trigger] pools[k],
    ensures
        amount <= shares_issued(pools, outcome, amount),
        shares_issued(pools, outcome, amount) <= pools[outcome] + amount - 1,
{
    lemma_ending_from_bounds(pools, outcome, amount, 0, pools[outcome]);
}

/// Issued shares are strictly increasing in the payment value, for a fixed
/// outcome and a fixed pool state.
pub proof fn lemma_shares_strictly_increasing(pools: Seq<nat>, outcome: int, a1: nat, a2: nat)
    requires
        0 <= outcome < pools.len(),
        forall|k: int| 0 <= k < pools.len() ==> 1 <= #[trigger] pools[k],
        a1 < a2,
    ensures
        shares_issued(pools, outcome, a1) < shares_issued(pools, outcome, a2),
{
    lemma_ending_from_mono(pools, outcome, a1, a2, 0, pools[outcome], pools[outcome]);
}

/// Relies on num_bigint::BigUint (exact arbitrary-precision `+`, `*`, `-`
/// and truncating `/`) and num_traits::ToPrimitive::to_u128 (`Some` exactly
/// when the value fits in a u128): computes `ceil(acc * pool / (pool +
/// amount))`. The quotient always fits in a u128 because `pool` is at most
/// the divisor `pool + amount`, so the quotient is at most `acc`; the
/// divisor is positive because `pool` is.
#[verifier::external_body]
fn ceil_ratio_step(acc: u128, pool: u128, amount: u128) -> (r: u128)
    requires
        1 <= pool,
    ensures
        r as nat == ceil_div(acc as nat * pool as nat, pool as nat + amount as nat),
{
    let denom = BigUint::from(pool) + BigUint::from(amount);
    let num = BigUint::from(acc) * BigUint::from(pool) + &denom - BigUint::from(1u32);
    (num / denom).to_u128().expect("ceiling quotient exceeds u128")
}

/// Compute the shares issued for a payment of `amount_units` (already
/// fee-adjusted) buying `outcome_id` of `market`, folding the other pools
/// in index order. Fails exactly when the target pool plus the payment
/// overflows a `u128`; the subtraction at the end cannot underflow.
pub fn calc_buy_amount(market: &Market, amount_units: u128, outcome_id: u32) -> (r: Result<
    u128,
    Error,
>)
    requires
        market.wf(),
        outcome_id < market.outcome_count,
    ensures
        match r {
            Ok(shares) => {
                &&& market.outcomes@[outcome_id as int].shares_available + amount_units
                    <= u128::MAX
                &&& shares as int == shares_issued(
                    avail_pools(market.outcomes@),
                    outcome_id as int,
                    amount_units as nat,
                )
            },
            Err(e) => {
                &&& e == Error::Arithmetic
                &&& market.outcomes@[outcome_id as int].shares_available + amount_units
                    > u128::MAX
            },
        },
{
    let ghost pools = avail_pools(market.outcomes@);
    let ghost skip = outcome_id as int;
    let ghost amount = amount_units as nat;
    let buy_pool: u128 = market.outcomes[outcome_id as usize].shares_available;
    if amount_units > u128::MAX - buy_pool {
        return Err(Error::Arithmetic);
    }
    let n = market.outcomes.len();
    let mut ending: u128 = buy_pool;
    let mut j: usize = 0;
    while j < n
        invariant
            market.wf(),
            outcome_id < market.outcome_count,
            n == market.outcomes@.len(),
            pools == avail_pools(market.outcomes@),
            skip == outcome_id as int,
            amount == amount_units as nat,
            buy_pool == market.outcomes@[skip].shares_available,
            0 <= j <= n,
            ending_from(pools, skip, amount, j as int, ending as nat) == ending_from(
                pools,
                skip,
                amount,
                0,
                buy_pool as nat,
            ),
        decreases n - j,
    {
        if j != outcome_id as usize {
            let pool = market.outcomes[j].shares_available;
            assert(market.outcomes@[j as int].wf_at(j as int));
            assert(pools[j as int] == pool as nat);
            ending = ceil_ratio_step(ending, pool, amount_units);
        }
        j += 1;
    }
    proof {
        assert(market.outcomes@[skip].wf_at(skip));
        assert forall|k: int| 0 <= k < pools.len() && k != skip implies 1 <= #[trigger] pools[k] by {
            assert(market.outcomes@[k].wf_at(k));
        };
        lemma_ending_from_bounds(pools, skip, amount, 0, buy_pool as nat);
    }
    Ok(buy_pool + amount_units - ending)
}

} // verus!
