//! Rewards: the rate at which the treasury pays them, and how a delegation
//! collects its share.

use vstd::prelude::*;
use crate::arith::{cap_to_u64, cap_u64, is_part, lemma_quotient_is_part, mul_wide, saturating_mul_u128};
use crate::state::accounts::{Delegation, Gateway};
use crate::state::constants::REWARD_PRECISION;

verus! {

/// The rewards that a delegation of `amount` has earned while the accumulator
/// rose by `delta`, capped at the largest `u64`.
pub open spec fn earned(amount: u64, delta: int) -> int {
    cap_u64(amount * delta / REWARD_PRECISION as int)
}

/// The rewards of a delegation that have not been added to it yet.
pub open spec fn pending_rewards(cumulative: u128, delegation: Delegation) -> int {
    if cumulative > delegation.reward_debt {
        earned(delegation.amount, cumulative - delegation.reward_debt)
    } else {
        0
    }
}

/// A delegation once its pending rewards have been added to it.
pub open spec fn settled_delegation(cumulative: u128, delegation: Delegation) -> Delegation {
    Delegation {
        amount: cap_u64(delegation.amount + pending_rewards(cumulative, delegation)) as u64,
        reward_debt: cumulative,
        ..delegation
    }
}

/// The delegated stake of a gateway once the pending rewards of one delegation
/// have been added to it.
pub open spec fn settled_stake(gateway: Gateway, delegation: Delegation) -> int {
    cap_u64(
        gateway.total_delegated_stake + pending_rewards(gateway.cumulative_reward_per_token, delegation),
    )
}

/// A gateway once the pending rewards of one delegation have been added to it.
pub open spec fn settled_gateway(gateway: Gateway, delegation: Delegation) -> Gateway {
    Gateway { total_delegated_stake: settled_stake(gateway, delegation) as u64, ..gateway }
}

proof fn lemma_split_product(amount: int, delta: int, quot: int, rem: int, p: int)
    requires
        p > 0,
        amount >= 0,
        delta == quot * p + rem,
        0 <= rem,
        0 <= quot,
    ensures
        amount * delta / p == amount * quot + amount * rem / p,
{
    assert(amount * delta == (amount * quot) * p + amount * rem) by (nonlinear_arith)
        requires
            delta == quot * p + rem,
    ;
    assert(((amount * quot) * p + amount * rem) / p == amount * quot + amount * rem / p) by {
        vstd::arithmetic::div_mod::lemma_hoist_over_denominator(amount * rem, amount * quot, p as nat);
    }
}

fn earned_rewards(amount: u64, delta: u128) -> (r: u64)
    ensures
        r == earned(amount, delta as int),
{
    match (amount as u128).checked_mul(delta) {
        Some(v) => cap_to_u64(v / REWARD_PRECISION),
        None => {
            // Quotient and remainder apart, so that the product fits.
            let quot: u128 = delta / REWARD_PRECISION;
            let rem: u128 = delta % REWARD_PRECISION;
            let from_quot: u128 = saturating_mul_u128(amount as u128, quot);
            let from_rem: u128 = mul_wide(amount, rem as u64) / REWARD_PRECISION;
            proof {
                let p: int = REWARD_PRECISION as int;
                vstd::arithmetic::div_mod::lemma_fundamental_div_mod(delta as int, p);
                assert(delta == quot * p + rem) by {
                    vstd::arithmetic::mul::lemma_mul_is_commutative(p, quot as int);
                }
                lemma_split_product(amount as int, delta as int, quot as int, rem as int, p);
                assert(amount * quot >= 0) by (nonlinear_arith)
                    requires
                        amount >= 0,
                        quot >= 0,
                ;
            }
            cap_to_u64(from_quot.saturating_add(from_rem))
        },
    }
}

/// Adds the pending rewards of a delegation to it and to its gateway's
/// delegated stake. Called before every change of a delegation.
pub fn settle_delegate_rewards(gateway: &mut Gateway, delegation: &mut Delegation)
    ensures
        *final(gateway) == settled_gateway(*old(gateway), *old(delegation)),
        *final(delegation) == settled_delegation(
            old(gateway).cumulative_reward_per_token,
            *old(delegation),
        ),
{
    if delegation.amount > 0 && gateway.cumulative_reward_per_token > delegation.reward_debt {
        let delta: u128 = gateway.cumulative_reward_per_token - delegation.reward_debt;
        let pending: u64 = earned_rewards(delegation.amount, delta);
        if pending > 0 {
            delegation.amount = delegation.amount.saturating_add(pending);
            gateway.total_delegated_stake = gateway.total_delegated_stake.saturating_add(pending);
        }
    } else {
        assert(0 * (gateway.cumulative_reward_per_token - delegation.reward_debt) == 0);
    }
    delegation.reward_debt = gateway.cumulative_reward_per_token;
}

/// Settling a second time changes nothing.
pub proof fn settling_is_idempotent(gateway: Gateway, delegation: Delegation)
    ensures
        ({
            let g = settled_gateway(gateway, delegation);
            let d = settled_delegation(gateway.cumulative_reward_per_token, delegation);
            &&& settled_gateway(g, d) == g
            &&& settled_delegation(g.cumulative_reward_per_token, d) == d
        }),
{
}

/// Settling never takes stake away, and adds as much to the gateway as to the
/// delegation where neither reaches the largest amount.
pub proof fn settling_only_adds(gateway: Gateway, delegation: Delegation)
    ensures
        ({
            let g = settled_gateway(gateway, delegation);
            let d = settled_delegation(gateway.cumulative_reward_per_token, delegation);
            &&& d.amount >= delegation.amount
            &&& g.total_delegated_stake >= gateway.total_delegated_stake
            &&& d.amount < u64::MAX && g.total_delegated_stake < u64::MAX ==> d.amount
                - delegation.amount == g.total_delegated_stake - gateway.total_delegated_stake
        }),
{
    if gateway.cumulative_reward_per_token > delegation.reward_debt {
        let delta: int = gateway.cumulative_reward_per_token - delegation.reward_debt;
        let a: int = delegation.amount as int;
        assert(a * delta >= 0) by (nonlinear_arith)
            requires
                a >= 0,
                delta >= 0,
        ;
        vstd::arithmetic::div_mod::lemma_div_pos_is_pos(a * delta, REWARD_PRECISION as int);
    }
}

/// What some delegations come to together.
pub open spec fn amount_total(delegations: Seq<Delegation>) -> int
    decreases delegations.len(),
{
    if delegations.len() == 0 {
        0
    } else {
        amount_total(delegations.drop_last()) + delegations.last().amount
    }
}

/// The rewards that some delegations have earned together while the accumulator rose
/// by `delta`.
pub open spec fn earned_total(delegations: Seq<Delegation>, delta: int) -> int
    decreases delegations.len(),
{
    if delegations.len() == 0 {
        0
    } else {
        earned_total(delegations.drop_last(), delta) + earned(delegations.last().amount, delta)
    }
}

/// The rewards of some delegations that have not been added to them yet.
pub open spec fn pending_total(cumulative: u128, delegations: Seq<Delegation>) -> int
    decreases delegations.len(),
{
    if delegations.len() == 0 {
        0
    } else {
        pending_total(cumulative, delegations.drop_last()) + pending_rewards(cumulative, delegations.last())
    }
}

/// A gateway and its delegations after the delegations at the first `n` of some
/// places have been settled one after the other. A place may occur more than once.
pub open spec fn settled_in_turn(gateway: Gateway, delegations: Seq<Delegation>, places: Seq<int>, n: int) -> (
    Gateway,
    Seq<Delegation>,
)
    decreases n,
{
    if n <= 0 {
        (gateway, delegations)
    } else {
        let (g, ds) = settled_in_turn(gateway, delegations, places, n - 1);
        let at = places[n - 1];
        (settled_gateway(g, ds[at]), ds.update(at, settled_delegation(g.cumulative_reward_per_token, ds[at])))
    }
}

proof fn lemma_earned_not_negative(amount: u64, delta: int)
    requires
        0 <= delta,
    ensures
        0 <= earned(amount, delta),
        earned(amount, delta) * REWARD_PRECISION <= amount * delta,
{
    let p: int = REWARD_PRECISION as int;
    let x: int = amount * delta;
    assert(x >= 0) by (nonlinear_arith)
        requires
            x == amount * delta,
            amount >= 0,
            delta >= 0,
    ;
    vstd::arithmetic::div_mod::lemma_div_pos_is_pos(x, p);
    vstd::arithmetic::div_mod::lemma_fundamental_div_mod(x, p);
    vstd::arithmetic::div_mod::lemma_mod_bound(x, p);
}

proof fn lemma_earned_total(delegations: Seq<Delegation>, delta: int)
    requires
        0 <= delta,
    ensures
        0 <= earned_total(delegations, delta),
        0 <= amount_total(delegations),
        earned_total(delegations, delta) * REWARD_PRECISION <= amount_total(delegations) * delta,
    decreases delegations.len(),
{
    if delegations.len() > 0 {
        let rest = delegations.drop_last();
        let amount = delegations.last().amount;
        lemma_earned_total(rest, delta);
        lemma_earned_not_negative(amount, delta);
        assert((amount_total(rest) + amount) * delta == amount_total(rest) * delta + amount * delta)
            by (nonlinear_arith);
    } else {
        assert(0 * delta == 0);
    }
}

proof fn lemma_earned_within_pool(delegations: Seq<Delegation>, pool: u64, stake: u64, delta: int)
    requires
        stake > 0,
        amount_total(delegations) <= stake,
        0 <= delta <= pool * REWARD_PRECISION / stake as int,
    ensures
        0 <= earned_total(delegations, delta) <= pool,
{
    let p: int = REWARD_PRECISION as int;
    let q: int = pool as int;
    let s: int = stake as int;
    let a: int = amount_total(delegations);
    let e: int = earned_total(delegations, delta);
    let most: int = q * p / s;
    lemma_earned_total(delegations, delta);
    vstd::arithmetic::div_mod::lemma_fundamental_div_mod(q * p, s);
    vstd::arithmetic::div_mod::lemma_mod_bound(q * p, s);
    assert(a * delta <= s * most) by (nonlinear_arith)
        requires
            0 <= a <= s,
            0 <= delta <= most,
    ;
    assert(e <= q) by (nonlinear_arith)
        requires
            e * p <= q * p,
            p > 0,
    ;
}

/// Delegations earn no more together than what was distributed: where they come to
/// `stake` at most, and `pool` is distributed over `stake`, they earn at most `pool`.
pub proof fn delegates_together_earn_the_pool_at_most(delegations: Seq<Delegation>, pool: u64, stake: u64)
    requires
        stake > 0,
        amount_total(delegations) <= stake,
    ensures
        0 <= earned_total(delegations, pool * REWARD_PRECISION / stake as int) <= pool,
{
    let x: int = pool * REWARD_PRECISION;
    assert(x >= 0) by (nonlinear_arith)
        requires
            x == pool * REWARD_PRECISION,
            pool >= 0,
            REWARD_PRECISION >= 0,
    ;
    vstd::arithmetic::div_mod::lemma_div_pos_is_pos(x, stake as int);
    lemma_earned_within_pool(delegations, pool, stake, x / stake as int);
}

proof fn lemma_pending_is_earned(cumulative: u128, debt: u128, delegations: Seq<Delegation>)
    requires
        debt <= cumulative,
        forall|i: int| 0 <= i < delegations.len() ==> (#[trigger] delegations[i]).reward_debt == debt,
    ensures
        pending_total(cumulative, delegations) == earned_total(delegations, cumulative - debt),
    decreases delegations.len(),
{
    if delegations.len() > 0 {
        let rest = delegations.drop_last();
        assert forall|i: int| 0 <= i < rest.len() implies (#[trigger] rest[i]).reward_debt == debt by {
            assert(rest[i] == delegations[i]);
        }
        lemma_pending_is_earned(cumulative, debt, rest);
        assert(delegations.last() == delegations[delegations.len() - 1]);
        if debt == cumulative {
            assert(delegations.last().amount * 0 == 0);
        }
    }
}

proof fn lemma_pending_not_negative(cumulative: u128, delegation: Delegation)
    ensures
        0 <= pending_rewards(cumulative, delegation),
{
    if cumulative > delegation.reward_debt {
        lemma_earned_not_negative(delegation.amount, cumulative - delegation.reward_debt);
    }
}

proof fn lemma_pending_total_not_negative(cumulative: u128, delegations: Seq<Delegation>)
    ensures
        0 <= pending_total(cumulative, delegations),
    decreases delegations.len(),
{
    if delegations.len() > 0 {
        lemma_pending_total_not_negative(cumulative, delegations.drop_last());
        lemma_pending_not_negative(cumulative, delegations.last());
    }
}

proof fn lemma_totals_after_update(cumulative: u128, delegations: Seq<Delegation>, at: int, new: Delegation)
    requires
        0 <= at < delegations.len(),
    ensures
        amount_total(delegations.update(at, new)) == amount_total(delegations) - delegations[at].amount + new.amount,
        pending_total(cumulative, delegations.update(at, new)) == pending_total(cumulative, delegations)
            - pending_rewards(cumulative, delegations[at]) + pending_rewards(cumulative, new),
    decreases delegations.len(),
{
    let rest = delegations.drop_last();
    let after = delegations.update(at, new);
    if at == delegations.len() - 1 {
        assert(after.drop_last() =~= rest);
    } else {
        lemma_totals_after_update(cumulative, rest, at, new);
        assert(after.drop_last() =~= rest.update(at, new));
    }
}

/// What has been settled and what is still pending come to no more than before, and
/// each delegation is as it was, or settled once.
proof fn lemma_settled_in_turn(gateway: Gateway, delegations: Seq<Delegation>, places: Seq<int>, n: int)
    requires
        0 <= n <= places.len(),
        forall|i: int| 0 <= i < places.len() ==> 0 <= #[trigger] places[i] < delegations.len(),
    ensures
        ({
            let c = gateway.cumulative_reward_per_token;
            let (g, ds) = settled_in_turn(gateway, delegations, places, n);
            &&& g == (Gateway { total_delegated_stake: g.total_delegated_stake, ..gateway })
            &&& ds.len() == delegations.len()
            &&& forall|j: int|
                0 <= j < ds.len() ==> #[trigger] ds[j] == if places.take(n).contains(j) {
                    settled_delegation(c, delegations[j])
                } else {
                    delegations[j]
                }
            &&& amount_total(ds) + pending_total(c, ds) <= amount_total(delegations) + pending_total(c, delegations)
            &&& g.total_delegated_stake + pending_total(c, ds) <= gateway.total_delegated_stake + pending_total(
                c,
                delegations,
            )
        }),
    decreases n,
{
    let c = gateway.cumulative_reward_per_token;
    if n > 0 {
        lemma_settled_in_turn(gateway, delegations, places, n - 1);
        let (g, ds) = settled_in_turn(gateway, delegations, places, n - 1);
        let at = places[n - 1];
        let new = settled_delegation(c, ds[at]);
        lemma_totals_after_update(c, ds, at, new);
        lemma_pending_not_negative(c, ds[at]);
        let before = places.take(n - 1);
        let after = places.take(n);
        assert(after =~= before.push(at));
        assert forall|j: int| 0 <= j < ds.len() implies after.contains(j) == (before.contains(j) || j == at) by {
            if before.contains(j) {
                let i = choose|i: int| 0 <= i < before.len() && before[i] == j;
                assert(after[i] == j);
            }
            if j == at {
                assert(after[n - 1] == j);
            }
            if after.contains(j) && j != at {
                let i = choose|i: int| 0 <= i < after.len() && after[i] == j;
                assert(before[i] == j);
            }
        }
    }
}

/// However delegations are settled after the accumulator of their gateway has risen,
/// in any order, once or repeatedly, they gain no more together than was distributed,
/// and no more is added to the gateway's delegated stake. A delegation gains its
/// pending rewards when it is settled first, and nothing when it is settled again.
pub proof fn settling_gains_the_pool_at_most(
    gateway: Gateway,
    delegations: Seq<Delegation>,
    places: Seq<int>,
    debt: u128,
    pool: u64,
    stake: u64,
)
    requires
        stake > 0,
        amount_total(delegations) <= stake,
        forall|i: int| 0 <= i < delegations.len() ==> (#[trigger] delegations[i]).reward_debt == debt,
        debt <= gateway.cumulative_reward_per_token <= debt + pool * REWARD_PRECISION / stake as int,
        forall|i: int| 0 <= i < places.len() ==> 0 <= #[trigger] places[i] < delegations.len(),
    ensures
        ({
            let c = gateway.cumulative_reward_per_token;
            let (g, ds) = settled_in_turn(gateway, delegations, places, places.len() as int);
            &&& amount_total(ds) - amount_total(delegations) <= pool
            &&& g.total_delegated_stake - gateway.total_delegated_stake <= pool
            &&& ds.len() == delegations.len()
            &&& forall|j: int|
                0 <= j < ds.len() ==> #[trigger] ds[j] == if places.contains(j) {
                    settled_delegation(c, delegations[j])
                } else {
                    delegations[j]
                }
            &&& forall|j: int|
                0 <= j < ds.len() && places.contains(j) ==> settled_delegation(c, #[trigger] ds[j]) == ds[j]
        }),
{
    let c = gateway.cumulative_reward_per_token;
    let n = places.len() as int;
    let (g, ds) = settled_in_turn(gateway, delegations, places, n);
    lemma_settled_in_turn(gateway, delegations, places, n);
    assert(places.take(n) =~= places);
    lemma_pending_total_not_negative(c, ds);
    lemma_pending_is_earned(c, debt, delegations);
    lemma_earned_within_pool(delegations, pool, stake, c - debt);
}

/// A delegation that opens at the current level of the accumulator has nothing
/// pending, so rewards paid out earlier never reach it.
pub proof fn new_delegation_has_nothing_pending(cumulative: u128, delegation: Delegation)
    requires
        delegation.reward_debt == cumulative,
    ensures
        pending_rewards(cumulative, delegation) == 0,
{
}

/// The reward rate of an epoch: the largest rate up to `decay_start`, the
/// smallest after `decay_last`, and linear in between.
pub open spec fn reward_rate(epoch_index: u64, max_rate: u64, min_rate: u64, decay_start: u64, decay_last: u64) -> int {
    if epoch_index < decay_start {
        max_rate as int
    } else if epoch_index > decay_last {
        min_rate as int
    } else if decay_last == decay_start || max_rate <= min_rate {
        max_rate as int
    } else {
        max_rate - (max_rate - min_rate) * (epoch_index - decay_start) / (decay_last - decay_start)
    }
}

/// The reward rate of an epoch: the largest rate up to `decay_start`, the
/// smallest after `decay_last`, and linear in between.
pub fn compute_reward_rate(
    epoch_index: u64,
    max_rate: u64,
    min_rate: u64,
    decay_start: u64,
    decay_last: u64,
) -> (r: u64)
    ensures
        r == reward_rate(epoch_index, max_rate, min_rate, decay_start, decay_last),
{
    if epoch_index < decay_start {
        return max_rate;
    }
    if epoch_index > decay_last {
        return min_rate;
    }
    let total_decay_period: u64 = decay_last - decay_start;
    let epochs_decayed: u64 = epoch_index - decay_start;
    let rate_range: u64 = max_rate.saturating_sub(min_rate);
    if total_decay_period == 0 {
        return max_rate;
    }
    proof {
        crate::arith::lemma_share_bounded(
            epochs_decayed as int,
            rate_range as int,
            total_decay_period as int,
        );
        assert(0 * epochs_decayed == 0);
    }
    let decay: u64 = (mul_wide(rate_range, epochs_decayed) / (total_decay_period as u128)) as u64;
    max_rate.saturating_sub(decay)
}

/// The reward rate stays between its two ends.
pub proof fn reward_rate_bounded(epoch_index: u64, max_rate: u64, min_rate: u64, decay_start: u64, decay_last: u64)
    requires
        min_rate <= max_rate,
    ensures
        min_rate <= reward_rate(epoch_index, max_rate, min_rate, decay_start, decay_last) <= max_rate,
{
    if decay_start <= epoch_index <= decay_last && decay_start < decay_last {
        crate::arith::lemma_share_bounded(
            epoch_index - decay_start,
            max_rate - min_rate,
            decay_last - decay_start,
        );
    }
}

/// The reward rate never rises from one epoch to a later one.
pub proof fn reward_rate_never_rises(
    earlier: u64,
    later: u64,
    max_rate: u64,
    min_rate: u64,
    decay_start: u64,
    decay_last: u64,
)
    requires
        min_rate <= max_rate,
        earlier <= later,
    ensures
        reward_rate(later, max_rate, min_rate, decay_start, decay_last) <= reward_rate(
            earlier,
            max_rate,
            min_rate,
            decay_start,
            decay_last,
        ),
{
    reward_rate_bounded(earlier, max_rate, min_rate, decay_start, decay_last);
    reward_rate_bounded(later, max_rate, min_rate, decay_start, decay_last);
    if decay_start <= earlier && later <= decay_last && decay_start < decay_last && min_rate < max_rate {
        let range: int = max_rate - min_rate;
        let a: int = earlier - decay_start;
        let b: int = later - decay_start;
        let p: int = decay_last - decay_start;
        assert(range * a <= range * b) by (nonlinear_arith)
            requires
                a <= b,
                range >= 0,
        ;
        vstd::arithmetic::div_mod::lemma_div_is_ordered(range * a, range * b, p);
    }
}

/// What a delegation of `amount` that was settled at `debt` gains when it is settled
/// at `cumulative`: its part of what the accumulator has risen, which counts by
/// 10^18 per token.
pub open spec fn gains(amount: u64, debt: u128, cumulative: u128, gain: int) -> bool {
    if cumulative <= debt {
        gain == 0
    } else {
        is_part(gain, amount as int, cumulative - debt, 1_000_000_000_000_000_000)
    }
}

pub proof fn lemma_settled_gains(gateway: Gateway, delegation: Delegation)
    ensures
        ({
            let c = gateway.cumulative_reward_per_token;
            let d = settled_delegation(c, delegation);
            let g = settled_gateway(gateway, delegation);
            &&& d.amount >= delegation.amount
            &&& g.total_delegated_stake >= gateway.total_delegated_stake
            &&& d.amount < u64::MAX ==> gains(
                delegation.amount,
                delegation.reward_debt,
                c,
                d.amount - delegation.amount,
            )
            &&& g.total_delegated_stake < u64::MAX ==> gains(
                delegation.amount,
                delegation.reward_debt,
                c,
                g.total_delegated_stake - gateway.total_delegated_stake,
            )
            &&& delegation.amount == 0 ==> d.amount == 0 && g == gateway
            &&& c <= delegation.reward_debt ==> d.amount == delegation.amount && g == gateway
        }),
{
    let c = gateway.cumulative_reward_per_token;
    settling_only_adds(gateway, delegation);
    if c > delegation.reward_debt {
        let rise: int = c - delegation.reward_debt;
        let a: int = delegation.amount as int;
        lemma_quotient_is_part(a, rise, 1_000_000_000_000_000_000);
        lemma_earned_not_negative(delegation.amount, rise);
        if a == 0 {
            assert(0 * rise == 0);
        }
    }
}

/// Settling brings a delegation up to its gateway's accumulator: the delegation and
/// the gateway's delegated stake both gain the delegation's part of the rise, and
/// nothing else changes.
pub proof fn settling_adds_the_part_of_the_rise(gateway: &mut Gateway, delegation: &mut Delegation)
    requires
        call_ensures(settle_delegate_rewards, (gateway, delegation), ()),
    ensures
        ({
            let (g, d) = (*old(gateway), *old(delegation));
            let (g2, d2) = (*final(gateway), *final(delegation));
            let c = g.cumulative_reward_per_token;
            &&& d2 == (Delegation { amount: d2.amount, reward_debt: c, ..d })
            &&& g2 == (Gateway { total_delegated_stake: g2.total_delegated_stake, ..g })
            &&& d2.amount < u64::MAX ==> gains(d.amount, d.reward_debt, c, d2.amount - d.amount)
            &&& g2.total_delegated_stake < u64::MAX ==> gains(
                d.amount,
                d.reward_debt,
                c,
                g2.total_delegated_stake - g.total_delegated_stake,
            )
            &&& d2.amount >= d.amount
            &&& g2.total_delegated_stake >= g.total_delegated_stake
        }),
{
    lemma_settled_gains(*old(gateway), *old(delegation));
}

/// The reward rate is the largest up to the epoch at which it starts to decay, the
/// smallest from the last epoch of the decay on, and in between it has fallen by as
/// much of the difference as of the epochs of the decay have passed.
pub proof fn reward_rate_decays_evenly(
    epoch_index: u64,
    max_rate: u64,
    min_rate: u64,
    decay_start: u64,
    decay_last: u64,
    r: u64,
)
    requires
        call_ensures(compute_reward_rate, (epoch_index, max_rate, min_rate, decay_start, decay_last), r),
        decay_start < decay_last,
        min_rate <= max_rate,
    ensures
        epoch_index <= decay_start ==> r == max_rate,
        epoch_index >= decay_last ==> r == min_rate,
        decay_start <= epoch_index <= decay_last ==> is_part(
            max_rate - r,
            max_rate - min_rate,
            epoch_index - decay_start,
            decay_last - decay_start,
        ),
        min_rate <= r <= max_rate,
{
    lemma_rate_decays_evenly(epoch_index, max_rate, min_rate, decay_start, decay_last);
}

pub proof fn lemma_rate_decays_evenly(
    epoch_index: u64,
    max_rate: u64,
    min_rate: u64,
    decay_start: u64,
    decay_last: u64,
)
    requires
        decay_start < decay_last,
        min_rate <= max_rate,
    ensures
        ({
            let r = reward_rate(epoch_index, max_rate, min_rate, decay_start, decay_last);
            &&& epoch_index <= decay_start ==> r == max_rate
            &&& epoch_index >= decay_last ==> r == min_rate
            &&& decay_start <= epoch_index <= decay_last ==> is_part(
                max_rate - r,
                max_rate - min_rate,
                epoch_index - decay_start,
                decay_last - decay_start,
            )
            &&& min_rate <= r <= max_rate
        }),
{
    reward_rate_bounded(epoch_index, max_rate, min_rate, decay_start, decay_last);
    if decay_start <= epoch_index <= decay_last {
        let range: int = max_rate - min_rate;
        let passed: int = epoch_index - decay_start;
        let p: int = decay_last - decay_start;
        lemma_quotient_is_part(range, passed, p);
        assert(range * 0 == 0);
        assert(0int / p == 0) by (nonlinear_arith)
            requires
                p > 0,
        ;
        assert(range * p / p == range) by (nonlinear_arith)
            requires
                p > 0,
        ;
        if range == 0 {
            assert(0 * passed == 0);
        }
    }
}

proof fn lemma_earned_total_lower(delegations: Seq<Delegation>, delta: int)
    requires
        0 <= delta,
        forall|i: int|
            0 <= i < delegations.len() ==> (#[trigger] delegations[i]).amount * delta / REWARD_PRECISION as int
                <= u64::MAX,
    ensures
        earned_total(delegations, delta) * REWARD_PRECISION + delegations.len() * (REWARD_PRECISION - 1)
            >= amount_total(delegations) * delta,
    decreases delegations.len(),
{
    if delegations.len() > 0 {
        let rest = delegations.drop_last();
        let amount = delegations.last().amount;
        assert(delegations.last() == delegations[delegations.len() - 1]);
        assert forall|i: int| 0 <= i < rest.len() implies (#[trigger] rest[i]).amount * delta
            / REWARD_PRECISION as int <= u64::MAX by {
            assert(rest[i] == delegations[i]);
        }
        lemma_earned_total_lower(rest, delta);
        lemma_quotient_is_part(amount as int, delta, REWARD_PRECISION as int);
        assert((amount_total(rest) + amount) * delta == amount_total(rest) * delta + amount * delta)
            by (nonlinear_arith);
        assert(delegations.len() * (REWARD_PRECISION - 1) == rest.len() * (REWARD_PRECISION - 1) + (REWARD_PRECISION
            - 1));
    } else {
        assert(0 * delta == 0);
    }
}

proof fn lemma_each_earns_the_pool_at_most(amount: u64, pool: u64, stake: u64, delta: int)
    requires
        stake > 0,
        amount <= stake,
        0 <= delta <= pool * REWARD_PRECISION / stake as int,
    ensures
        0 <= amount * delta / REWARD_PRECISION as int <= pool,
{
    let (a, q, s, p) = (amount as int, pool as int, stake as int, REWARD_PRECISION as int);
    let most: int = q * p / s;
    vstd::arithmetic::div_mod::lemma_fundamental_div_mod(q * p, s);
    vstd::arithmetic::div_mod::lemma_mod_bound(q * p, s);
    assert(0 <= a * delta <= s * most) by (nonlinear_arith)
        requires
            0 <= a <= s,
            0 <= delta <= most,
    ;
    assert(q * p / p == q) by (nonlinear_arith)
        requires
            p > 0,
    ;
    vstd::arithmetic::div_mod::lemma_div_is_ordered(a * delta, q * p, p);
    vstd::arithmetic::div_mod::lemma_div_pos_is_pos(a * delta, p);
}

proof fn lemma_amounts_within_total(delegations: Seq<Delegation>, i: int)
    requires
        0 <= i < delegations.len(),
    ensures
        0 <= delegations[i].amount <= amount_total(delegations),
    decreases delegations.len(),
{
    let rest = delegations.drop_last();
    if i < rest.len() {
        lemma_amounts_within_total(rest, i);
        assert(rest[i] == delegations[i]);
    } else {
        assert(delegations.last() == delegations[i]);
        lemma_total_not_negative(rest);
    }
}

proof fn lemma_total_not_negative(delegations: Seq<Delegation>)
    ensures
        0 <= amount_total(delegations),
    decreases delegations.len(),
{
    if delegations.len() > 0 {
        lemma_total_not_negative(delegations.drop_last());
    }
}

proof fn lemma_settled_amounts(cumulative: u128, delegations: Seq<Delegation>, settled: Seq<Delegation>)
    requires
        settled.len() == delegations.len(),
        forall|i: int|
            0 <= i < delegations.len() ==> #[trigger] settled[i] == settled_delegation(cumulative, delegations[i]),
        forall|i: int|
            0 <= i < delegations.len() ==> (#[trigger] delegations[i]).amount + pending_rewards(
                cumulative,
                delegations[i],
            ) <= u64::MAX,
    ensures
        amount_total(settled) == amount_total(delegations) + pending_total(cumulative, delegations),
    decreases delegations.len(),
{
    if delegations.len() > 0 {
        let n = delegations.len() - 1;
        assert(delegations[n] == delegations.last());
        assert(settled[n] == settled.last());
        lemma_pending_not_negative(cumulative, delegations[n]);
        assert forall|i: int| 0 <= i < n implies #[trigger] settled.drop_last()[i] == settled_delegation(
            cumulative,
            delegations.drop_last()[i],
        ) by {
            assert(settled[i] == settled_delegation(cumulative, delegations[i]));
        }
        assert forall|i: int| 0 <= i < n implies (#[trigger] delegations.drop_last()[i]).amount + pending_rewards(
            cumulative,
            delegations.drop_last()[i],
        ) <= u64::MAX by {
            assert(delegations[i].amount + pending_rewards(cumulative, delegations[i]) <= u64::MAX);
        }
        lemma_settled_amounts(cumulative, delegations.drop_last(), settled.drop_last());
    }
}

/// Delegations that hold the whole stake gain all of what was distributed over it, but
/// for what rounding loses: less than one unit per delegation, and less than one more
/// where the stake is 10^18 at most.
pub proof fn settling_gains_the_pool_but_for_rounding(
    cumulative: u128,
    debt: u128,
    delegations: Seq<Delegation>,
    settled: Seq<Delegation>,
    pool: u64,
    stake: u64,
)
    requires
        stake > 0,
        stake + pool <= u64::MAX,
        amount_total(delegations) == stake,
        is_part(cumulative - debt, pool as int, 1_000_000_000_000_000_000, stake as int),
        settled.len() == delegations.len(),
        forall|i: int| 0 <= i < delegations.len() ==> (#[trigger] delegations[i]).reward_debt == debt,
        forall|i: int|
            0 <= i < delegations.len() ==> #[trigger] settled[i] == settled_delegation(cumulative, delegations[i]),
    ensures
        ({
            let gained = amount_total(settled) - amount_total(delegations);
            &&& gained <= pool
            &&& gained * 1_000_000_000_000_000_000 + delegations.len() * 1_000_000_000_000_000_000 + stake >= pool
                * 1_000_000_000_000_000_000
            &&& stake <= 1_000_000_000_000_000_000 ==> gained + delegations.len() >= pool
        }),
{
    let p: int = REWARD_PRECISION as int;
    let q: int = pool as int;
    let s: int = stake as int;
    let delta: int = cumulative - debt;
    lemma_quotient_is_part(q, p, s);
    crate::arith::lemma_part_is_unique(delta, q * p / s, q, p, s);
    assert(delta >= 0) by (nonlinear_arith)
        requires
            q * p < delta * s + s,
            q >= 0,
            p > 0,
            s > 0,
    ;
    lemma_earned_within_pool(delegations, pool, stake, delta);
    lemma_pending_is_earned(cumulative, debt, delegations);
    assert forall|i: int| 0 <= i < delegations.len() implies (#[trigger] delegations[i]).amount * delta
        / REWARD_PRECISION as int <= u64::MAX && delegations[i].amount + pending_rewards(cumulative, delegations[i])
        <= u64::MAX by {
        lemma_amounts_within_total(delegations, i);
        lemma_each_earns_the_pool_at_most(delegations[i].amount, pool, stake, delta);
    }
    lemma_earned_total_lower(delegations, delta);
    lemma_settled_amounts(cumulative, delegations, settled);
    let gained: int = amount_total(settled) - amount_total(delegations);
    let n: int = delegations.len() as int;
    assert(s * delta == delta * s) by (nonlinear_arith);
    assert(n * (p - 1) == n * p - n) by (nonlinear_arith);
    assert(gained * p + n * p - n + s > q * p);
    if s <= p {
        if s > 0 && n == 0 {
            assert(false);
        }
        assert(gained + n >= q) by (nonlinear_arith)
            requires
                gained * p + n * p - n + s > q * p,
                s <= p,
                n >= 1,
                p > 0,
        ;
    }
}

} // verus!
