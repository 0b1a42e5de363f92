//! Paying out the rewards of an epoch.

use vstd::prelude::*;
use crate::addresses::{
    bytes_of, gateway_address, gateway_pda, le_bytes_u64, lemma_le_bytes_inverse, u64_to_le_bytes,
};
use crate::arith::{is_part, le_value, lemma_part_is_unique, lemma_quotient_is_part, lemma_sum_of_equal_terms, sum_of};
use crate::arith::{cap_u64, lemma_share_bounded, lesser, low64, minus_or_zero, mul_wide, truncate_u128};
use crate::error::GarError;
use crate::events::EpochDistributedEvent;
use crate::instructions::effects::{transfer_if_any, Holder, Outcome, Refusal, TokenTransfer};
use crate::instructions::gateway_account::GatewayAccount;
use crate::instructions::places::{gateway_slots, slots_in};
use crate::pubkey::{sha256, sha256_hash, Pubkey};
use crate::state::accounts::{
    Delegation, EpochSettings, Gateway, GatewayRegistry, GatewaySettings, GatewaySlot, GatewayStats, GatewayStatus,
};
use crate::state::constants::{RATE_SCALE, REWARD_PRECISION};
use crate::state::epoch::Epoch;
use crate::state::rewards::{
    amount_total, settled_delegation, settled_in_turn, settling_gains_the_pool_at_most,
    settling_gains_the_pool_but_for_rounding,
};

verus! {

/// The share of a reward that goes to the delegates: nothing unless the gateway
/// carried delegated stake when its weight was tallied.
pub open spec fn delegate_share(scaled_reward: u64, ratio: u16, had_delegation_at_tally: bool) -> int {
    if had_delegation_at_tally {
        low64(scaled_reward * ratio / 10_000)
    } else {
        0
    }
}

/// Splits a reward between operator and delegates. What counts is whether there
/// was delegated stake at the tally, which raised the gateway's weight, not
/// whether any is left: delegates that are forced out in between cannot have
/// their share fall to the operator.
pub fn split_scaled_reward(
    scaled_reward: u64,
    delegate_reward_share_ratio: u16,
    had_delegation_at_tally: bool,
) -> (r: (u64, u64))
    ensures
        r.1 == delegate_share(scaled_reward, delegate_reward_share_ratio, had_delegation_at_tally),
        r.0 == minus_or_zero(scaled_reward as int, r.1 as int),
{
    let delegate_pool: u64 = if delegate_reward_share_ratio > 0 && had_delegation_at_tally {
        truncate_u128(mul_wide(scaled_reward, delegate_reward_share_ratio as u64) / 10_000)
    } else {
        proof {
            if delegate_reward_share_ratio == 0 {
                assert(scaled_reward * delegate_reward_share_ratio == 0) by (nonlinear_arith)
                    requires
                        delegate_reward_share_ratio == 0,
                ;
            }
        }
        0
    };
    let operator_reward: u64 = scaled_reward.saturating_sub(delegate_pool);
    (operator_reward, delegate_pool)
}

/// The split hands out the whole reward and no more, as long as the delegates'
/// share is at most the whole.
pub proof fn split_conserves_reward(scaled_reward: u64, ratio: u16, had_delegation_at_tally: bool)
    requires
        ratio <= 10_000,
    ensures
        ({
            let pool = delegate_share(scaled_reward, ratio, had_delegation_at_tally);
            &&& 0 <= pool <= scaled_reward
            &&& minus_or_zero(scaled_reward as int, pool) + pool == scaled_reward
        }),
{
    lemma_share_bounded(ratio as int, scaled_reward as int, 10_000);
}

/// What a gateway earns in an epoch, before scaling. A leaving gateway earns
/// nothing; one that passed earns the gateway reward, docked if it was to observe
/// and did not; one that was to observe and did earns the observer reward.
pub open spec fn full_reward_of(
    per_gateway: u64,
    per_observer: u64,
    penalty_rate: u64,
    is_leaving: bool,
    failed: bool,
    is_prescribed: bool,
    is_observed: bool,
) -> int {
    if is_leaving {
        0
    } else if failed {
        if is_prescribed && is_observed {
            per_observer as int
        } else {
            0
        }
    } else if !is_prescribed {
        per_gateway as int
    } else if is_observed {
        cap_u64(per_gateway + per_observer)
    } else {
        per_gateway * minus_or_zero(RATE_SCALE as int, penalty_rate as int) / RATE_SCALE as int
    }
}

/// What a gateway earns in an epoch, before scaling.
pub fn compute_full_reward(
    per_gateway: u64,
    per_observer: u64,
    penalty_rate: u64,
    is_leaving: bool,
    failed: bool,
    is_prescribed: bool,
    is_observed: bool,
) -> (r: u64)
    ensures
        r == full_reward_of(
            per_gateway,
            per_observer,
            penalty_rate,
            is_leaving,
            failed,
            is_prescribed,
            is_observed,
        ),
{
    if is_leaving {
        0
    } else if !failed {
        if is_prescribed {
            if is_observed {
                per_gateway.saturating_add(per_observer)
            } else {
                let kept: u64 = RATE_SCALE.saturating_sub(penalty_rate);
                proof {
                    lemma_share_bounded(kept as int, per_gateway as int, RATE_SCALE as int);
                }
                (mul_wide(per_gateway, kept) / RATE_SCALE as u128) as u64
            }
        } else {
            per_gateway
        }
    } else if is_prescribed && is_observed {
        per_observer
    } else {
        0
    }
}

/// The place of an operator among the first `n` prescribed gateways.
pub open spec fn prescribed_at(gateways: Seq<Pubkey>, n: int, operator: Pubkey) -> Option<int>
    decreases n,
{
    if n <= 0 {
        None
    } else {
        match prescribed_at(gateways, n - 1, operator) {
            Some(i) => Some(i),
            None => if gateways[n - 1] == operator {
                Some(n - 1)
            } else {
                None
            },
        }
    }
}

fn find_prescribed(epoch: &Epoch, operator: &Pubkey) -> (r: Option<usize>)
    requires
        epoch.observer_count <= 50,
    ensures
        match r {
            Some(i) => prescribed_at(
                epoch.prescribed_observer_gateways@,
                epoch.observer_count as int,
                *operator,
            ) == Some(i as int) && i < epoch.observer_count,
            None => prescribed_at(
                epoch.prescribed_observer_gateways@,
                epoch.observer_count as int,
                *operator,
            ) is None,
        },
{
    let n: usize = epoch.observer_count as usize;
    let mut i: usize = 0;
    while i < n
        invariant
            i <= n <= 50,
            n == epoch.observer_count,
            prescribed_at(epoch.prescribed_observer_gateways@, i as int, *operator) is None,
        decreases n - i,
    {
        if epoch.prescribed_observer_gateways[i] == *operator {
            proof {
                lemma_prescribed_at_stays(
                    epoch.prescribed_observer_gateways@,
                    i + 1,
                    n as int,
                    *operator,
                );
            }
            return Some(i);
        }
        i = i + 1;
    }
    None
}

proof fn lemma_prescribed_at_stays(gateways: Seq<Pubkey>, m: int, n: int, operator: Pubkey)
    requires
        0 <= m <= n,
        prescribed_at(gateways, m, operator) is Some,
    ensures
        prescribed_at(gateways, n, operator) == prescribed_at(gateways, m, operator),
    decreases n,
{
    if m < n {
        lemma_prescribed_at_stays(gateways, m, n - 1, operator);
    }
}

/// What is due to one gateway of a batch.
#[derive(Clone, Copy, Debug, PartialEq, Eq, Structural)]
pub struct PendingDistribution {
    /// The place of the gateway among the accounts of the batch.
    pub account: usize,
    /// The reward before it is scaled to what the treasury holds.
    pub full_reward: u64,
    pub is_leaving: bool,
    pub is_prescribed: bool,
    pub is_observed: bool,
    pub failed: bool,
    /// Whether the gateway carried delegated stake when its weight was tallied.
    pub had_delegation_at_tally: bool,
}

/// A gateway fails an epoch if more than half of the reports say so.
pub open spec fn failed_epoch(epoch: Epoch, at: int) -> bool {
    &&& epoch.observations_submitted > 0
    &&& epoch.failure_counts@[at] > epoch.observations_submitted as int / 2
}

/// What is wrong with a gateway of a batch, if anything. `expected` is the address
/// that its operator gives.
pub open spec fn assessment_refusal(
    key: Pubkey,
    expected: Pubkey,
    gateway: Gateway,
    slot: GatewaySlot,
    epoch: Epoch,
) -> Option<GarError> {
    if key != expected {
        Some(GarError::InvalidGatewayAccount)
    } else if slot.address != gateway.operator {
        Some(GarError::InvalidGatewayAccount)
    } else if gateway.status != GatewayStatus::Leaving && gateway.weights.weights_epoch != epoch.epoch_index {
        Some(GarError::WeightsNotTallied)
    } else {
        None
    }
}

/// What is due to gateway `at` of an epoch, which stands in `slot`.
pub open spec fn assessed(
    account: int,
    gateway: Gateway,
    slot: GatewaySlot,
    at: int,
    epoch: Epoch,
    penalty_rate: u64,
) -> PendingDistribution {
    let is_leaving = gateway.status == GatewayStatus::Leaving;
    let failed = failed_epoch(epoch, at);
    let place = prescribed_at(
        epoch.prescribed_observer_gateways@,
        epoch.observer_count as int,
        gateway.operator,
    );
    let is_observed = place is Some && epoch.observed(place->Some_0);
    PendingDistribution {
        account: account as usize,
        full_reward: full_reward_of(
            epoch.per_gateway_reward,
            epoch.per_observer_reward,
            penalty_rate,
            is_leaving,
            failed,
            place is Some,
            is_observed,
        ) as u64,
        is_leaving,
        is_prescribed: place is Some,
        is_observed,
        failed,
        had_delegation_at_tally: slot.delegated_at_tally != 0,
    }
}

/// Works out what is due to gateway `at` of an epoch. `expected` is the
/// address that the gateway's operator gives.
pub fn assess_gateway(
    account: usize,
    key: &Pubkey,
    expected: &Pubkey,
    gateway: &Gateway,
    slot: &GatewaySlot,
    at: usize,
    epoch: &Epoch,
    penalty_rate: u64,
) -> (r: Result<PendingDistribution, GarError>)
    requires
        at < 3000,
        epoch.observer_count <= 50,
    ensures
        match r {
            Err(e) => assessment_refusal(*key, *expected, *gateway, *slot, *epoch) == Some(e),
            Ok(p) => {
                &&& assessment_refusal(*key, *expected, *gateway, *slot, *epoch) is None
                &&& p == assessed(account as int, *gateway, *slot, at as int, *epoch, penalty_rate)
            },
        },
{
    if *key != *expected {
        return Err(GarError::InvalidGatewayAccount);
    }
    if slot.address != gateway.operator {
        return Err(GarError::InvalidGatewayAccount);
    }
    let is_leaving: bool = gateway.status == GatewayStatus::Leaving;
    if !is_leaving && gateway.weights.weights_epoch != epoch.epoch_index {
        return Err(GarError::WeightsNotTallied);
    }
    let failed: bool = epoch.observations_submitted > 0 && epoch.failure_counts[at] > (
    epoch.observations_submitted as u16) / 2;
    let prescribed = find_prescribed(epoch, &gateway.operator);
    let is_prescribed: bool = prescribed.is_some();
    let is_observed: bool = match prescribed {
        Some(place) => epoch.is_observed(place),
        None => false,
    };
    let full_reward: u64 = compute_full_reward(
        epoch.per_gateway_reward,
        epoch.per_observer_reward,
        penalty_rate,
        is_leaving,
        failed,
        is_prescribed,
        is_observed,
    );
    Ok(
        PendingDistribution {
            account,
            full_reward,
            is_leaving,
            is_prescribed,
            is_observed,
            failed,
            had_delegation_at_tally: slot.delegated_at_tally != 0,
        },
    )
}

/// The record of a gateway after one more epoch; a leaving gateway's stays.
pub open spec fn stats_after(stats: GatewayStats, p: PendingDistribution) -> GatewayStats {
    if p.is_leaving {
        stats
    } else {
        GatewayStats {
            total_epochs: plus_one_u32(stats.total_epochs),
            passed_epochs: if p.failed {
                stats.passed_epochs
            } else {
                plus_one_u32(stats.passed_epochs)
            },
            failed_epochs: if p.failed {
                plus_one_u32(stats.failed_epochs)
            } else {
                stats.failed_epochs
            },
            passed_consecutive: if p.failed {
                0
            } else {
                plus_one_u8(stats.passed_consecutive)
            },
            failed_consecutive: if p.failed {
                plus_one_u8(stats.failed_consecutive)
            } else {
                0
            },
            prescribed_epochs: if p.is_prescribed {
                plus_one_u32(stats.prescribed_epochs)
            } else {
                stats.prescribed_epochs
            },
            observed_epochs: if p.is_prescribed && p.is_observed {
                plus_one_u32(stats.observed_epochs)
            } else {
                stats.observed_epochs
            },
        }
    }
}

/// One more, up to the largest number.
pub open spec fn plus_one_u32(x: u32) -> u32 {
    if x == u32::MAX {
        x
    } else {
        (x + 1) as u32
    }
}

/// One more, up to the largest number.
pub open spec fn plus_one_u8(x: u8) -> u8 {
    if x == u8::MAX {
        x
    } else {
        (x + 1) as u8
    }
}

/// Adds one epoch to the record of a gateway.
pub fn update_stats(stats: &mut GatewayStats, p: &PendingDistribution)
    ensures
        *final(stats) == stats_after(*old(stats), *p),
{
    if !p.is_leaving {
        stats.total_epochs = stats.total_epochs.saturating_add(1);
        if !p.failed {
            stats.passed_epochs = stats.passed_epochs.saturating_add(1);
            stats.passed_consecutive = stats.passed_consecutive.saturating_add(1);
            stats.failed_consecutive = 0;
        } else {
            stats.failed_epochs = stats.failed_epochs.saturating_add(1);
            stats.failed_consecutive = stats.failed_consecutive.saturating_add(1);
            stats.passed_consecutive = 0;
        }
        if p.is_prescribed {
            stats.prescribed_epochs = stats.prescribed_epochs.saturating_add(1);
        }
        if p.is_prescribed && p.is_observed {
            stats.observed_epochs = stats.observed_epochs.saturating_add(1);
        }
    }
}

/// A reward scaled down to its part of what is transferred.
pub open spec fn scaled_reward_of(full_reward: u64, transfer: int, batch_total: int) -> int {
    if batch_total > 0 {
        full_reward * transfer / batch_total
    } else {
        0
    }
}

/// What the operator of a gateway is credited.
pub open spec fn operator_credit(gateway: Gateway, p: PendingDistribution, scaled: u64) -> int {
    if gateway.status == GatewayStatus::Joined {
        minus_or_zero(scaled as int, pool_of(gateway, p, scaled))
    } else {
        0
    }
}

/// The delegates' part of a gateway's reward.
pub open spec fn pool_of(gateway: Gateway, p: PendingDistribution, scaled: u64) -> int {
    delegate_share(scaled, gateway.settings.delegate_reward_share_ratio, p.had_delegation_at_tally)
}

/// The delegates' part, where there are delegates left to take it.
pub open spec fn delegate_credit(gateway: Gateway, p: PendingDistribution, scaled: u64) -> int {
    if gateway.total_delegated_stake > 0 {
        pool_of(gateway, p, scaled)
    } else {
        0
    }
}

/// The delegates' part, where no delegate is left to take it: it stays in the
/// treasury.
pub open spec fn orphaned_share(gateway: Gateway, p: PendingDistribution, scaled: u64) -> int {
    if gateway.total_delegated_stake > 0 {
        0
    } else {
        pool_of(gateway, p, scaled)
    }
}

/// A gateway after its reward: the operator's part is staked, the delegates' part
/// raises the accumulator, and the record has one more epoch.
pub open spec fn credited(gateway: Gateway, p: PendingDistribution, scaled: u64) -> Gateway {
    Gateway {
        operator_stake: cap_u64(gateway.operator_stake + operator_credit(gateway, p, scaled)) as u64,
        cumulative_reward_per_token: if gateway.total_delegated_stake > 0 {
            lesser(
                gateway.cumulative_reward_per_token + pool_of(gateway, p, scaled) * REWARD_PRECISION
                    / gateway.total_delegated_stake as int,
                u128::MAX as int,
            ) as u128
        } else {
            gateway.cumulative_reward_per_token
        },
        stats: stats_after(gateway.stats, p),
        ..gateway
    }
}

/// Credits a gateway with its scaled reward. Returns what the operator was
/// credited, and the part of the delegates that nobody is left to take.
pub fn credit_gateway(gateway: &mut Gateway, p: &PendingDistribution, scaled: u64) -> (r: (u64, u64))
    ensures
        *final(gateway) == credited(*old(gateway), *p, scaled),
        r.0 == operator_credit(*old(gateway), *p, scaled),
        r.1 == orphaned_share(*old(gateway), *p, scaled),
{
    let mut operator_total: u64 = 0;
    let mut orphaned: u64 = 0;
    if scaled > 0 {
        let (operator_reward, delegate_pool) = split_scaled_reward(
            scaled,
            gateway.settings.delegate_reward_share_ratio,
            p.had_delegation_at_tally,
        );
        if operator_reward > 0 && gateway.status == GatewayStatus::Joined {
            gateway.operator_stake = gateway.operator_stake.saturating_add(operator_reward);
            operator_total = operator_reward;
        }
        if delegate_pool > 0 {
            if gateway.total_delegated_stake > 0 {
                let increment: u128 = (delegate_pool as u128) * REWARD_PRECISION
                    / (gateway.total_delegated_stake as u128);
                gateway.cumulative_reward_per_token = gateway.cumulative_reward_per_token.saturating_add(
                    increment,
                );
            } else {
                orphaned = delegate_pool;
            }
        }
    } else {
        assert(0 * gateway.settings.delegate_reward_share_ratio == 0);
    }
    update_stats(&mut gateway.stats, p);
    proof {
        let stake: int = old(gateway).total_delegated_stake as int;
        if stake > 0 {
            assert(0int / stake == 0) by (nonlinear_arith)
                requires
                    stake > 0,
            ;
        }
    }
    (operator_total, orphaned)
}

/// The accounts of `distribute_epoch`.
#[derive(Clone, Debug)]
pub struct DistributeEpoch {
    pub epoch_settings: EpochSettings,
    pub epoch: Epoch,
    pub registry: GatewayRegistry,
    pub settings: GatewaySettings,
    pub protocol_token_account: Pubkey,
    /// What the treasury holds.
    pub protocol_balance: u64,
    pub stake_token_account: Pubkey,
    /// The gateways of the batch, in the order of the epoch.
    pub accounts: Vec<GatewayAccount>,
    pub program_id: Pubkey,
}

/// What is due to the account at place `k` of a batch, which stands for gateway
/// `at` of the epoch.
pub open spec fn assess_account(ctx: DistributeEpoch, k: int, at: int) -> Result<PendingDistribution, Refusal> {
    let account = ctx.accounts@[k];
    let slot = slots_in(ctx.registry, ctx.epoch)[at];
    if !account.owned || !account.writable {
        Err(Refusal::Gar(GarError::InvalidGatewayAccount))
    } else {
        match account.gateway {
            None => Err(Refusal::Gar(GarError::InvalidGatewayAccount)),
            Some(gateway) => match gateway_pda(gateway.operator, ctx.program_id) {
                None => Err(Refusal::NoProgramAddress),
                Some((expected, bump)) => match assessment_refusal(
                    account.key,
                    expected,
                    gateway,
                    slot,
                    ctx.epoch,
                ) {
                    Some(e) => Err(Refusal::Gar(e)),
                    None => Ok(
                        assessed(
                            k,
                            gateway,
                            slot,
                            at,
                            ctx.epoch,
                            ctx.epoch_settings.missed_observation_penalty_rate,
                        ),
                    ),
                },
            },
        }
    }
}

/// How far a batch has been assessed.
pub struct BatchState {
    /// The next gateway of the epoch.
    pub next: int,
    /// The sum of the full rewards.
    pub total: int,
    pub pending: Seq<PendingDistribution>,
}

/// The assessment of a batch from account `k` on. It ends with the accounts or
/// with the epoch's gateways, whichever comes first. An account that stands for a
/// cleared slot is passed over.
pub open spec fn assess_from(ctx: DistributeEpoch, k: int, st: BatchState) -> Result<BatchState, Refusal>
    decreases ctx.accounts@.len() - k,
{
    if k >= ctx.accounts@.len() || st.next >= ctx.epoch.active_gateway_count {
        Ok(st)
    } else if slots_in(ctx.registry, ctx.epoch)[st.next].address == Pubkey::zero() {
        assess_from(ctx, k + 1, BatchState { next: st.next + 1, ..st })
    } else {
        match assess_account(ctx, k, st.next) {
            Err(e) => Err(e),
            Ok(p) => if st.total + p.full_reward > u64::MAX {
                Err(Refusal::Gar(GarError::ArithmeticOverflow))
            } else {
                assess_from(
                    ctx,
                    k + 1,
                    BatchState {
                        next: st.next + 1,
                        total: st.total + p.full_reward,
                        pending: st.pending.push(p),
                    },
                )
            },
        }
    }
}

/// The sum of full rewards.
pub open spec fn full_total(pending: Seq<PendingDistribution>) -> int
    decreases pending.len(),
{
    if pending.len() == 0 {
        0
    } else {
        full_total(pending.drop_last()) + pending.last().full_reward
    }
}

/// A reward scaled down to its part of what is transferred.
pub open spec fn scaled(p: PendingDistribution, transfer: int, total: int) -> u64 {
    scaled_reward_of(p.full_reward, transfer, total) as u64
}

/// The gateway that a reward is due to.
pub open spec fn gateway_of(accounts: Seq<GatewayAccount>, p: PendingDistribution) -> Gateway {
    accounts[p.account as int].gateway->Some_0
}

/// The accounts of a batch once the rewards in `pending` have been credited.
pub open spec fn after_credits(
    accounts: Seq<GatewayAccount>,
    pending: Seq<PendingDistribution>,
    transfer: int,
    total: int,
) -> Seq<GatewayAccount>
    decreases pending.len(),
{
    if pending.len() == 0 {
        accounts
    } else {
        let p = pending.last();
        after_credits(accounts, pending.drop_last(), transfer, total).update(
            p.account as int,
            GatewayAccount {
                gateway: Some(credited(gateway_of(accounts, p), p, scaled(p, transfer, total))),
                ..accounts[p.account as int]
            },
        )
    }
}

/// What the operators are credited in all.
pub open spec fn operator_total(
    accounts: Seq<GatewayAccount>,
    pending: Seq<PendingDistribution>,
    transfer: int,
    total: int,
) -> int
    decreases pending.len(),
{
    if pending.len() == 0 {
        0
    } else {
        let p = pending.last();
        operator_total(accounts, pending.drop_last(), transfer, total) + operator_credit(
            gateway_of(accounts, p),
            p,
            scaled(p, transfer, total),
        )
    }
}

/// What is credited to delegates in all.
pub open spec fn delegate_total(
    accounts: Seq<GatewayAccount>,
    pending: Seq<PendingDistribution>,
    transfer: int,
    total: int,
) -> int
    decreases pending.len(),
{
    if pending.len() == 0 {
        0
    } else {
        let p = pending.last();
        delegate_total(accounts, pending.drop_last(), transfer, total) + delegate_credit(
            gateway_of(accounts, p),
            p,
            scaled(p, transfer, total),
        )
    }
}

/// What would go to delegates that are gone.
pub open spec fn orphaned_total(
    accounts: Seq<GatewayAccount>,
    pending: Seq<PendingDistribution>,
    transfer: int,
    total: int,
) -> int
    decreases pending.len(),
{
    if pending.len() == 0 {
        0
    } else {
        let p = pending.last();
        orphaned_total(accounts, pending.drop_last(), transfer, total) + orphaned_share(
            gateway_of(accounts, p),
            p,
            scaled(p, transfer, total),
        )
    }
}

/// What distributing a batch leaves behind.
pub struct DistributionResult {
    pub accounts: Seq<GatewayAccount>,
    pub epoch: Epoch,
    pub settings: GatewaySettings,
    /// What moves from the treasury to the stake pool.
    pub transfer: int,
    pub event: Option<EpochDistributedEvent>,
}

/// Why a batch is refused before any gateway of it is looked at, if it is.
pub open spec fn distribution_refusal(ctx: DistributeEpoch, now: i64) -> Option<GarError> {
    if ctx.protocol_token_account != ctx.settings.protocol_token_account {
        Some(GarError::InvalidParameter)
    } else if ctx.stake_token_account != ctx.settings.stake_token_account {
        Some(GarError::InvalidParameter)
    } else if ctx.epoch.prescriptions_done == 0 {
        Some(GarError::PrescriptionsNotDone)
    } else if now < ctx.epoch.end_timestamp {
        Some(GarError::EpochInProgress)
    } else if ctx.epoch.rewards_distributed != 0 {
        Some(GarError::RewardsAlreadyDistributed)
    } else {
        None
    }
}

/// The batch once it has been assessed is paid out of what the treasury holds.
pub open spec fn paid_out(ctx: DistributeEpoch, batch: BatchState, now: i64) -> Result<DistributionResult, Refusal> {
    let before = lesser(batch.total, ctx.protocol_balance as int);
    let operators = operator_total(ctx.accounts@, batch.pending, before, batch.total);
    let orphaned = orphaned_total(ctx.accounts@, batch.pending, before, batch.total);
    let done = batch.next >= ctx.epoch.active_gateway_count;
    if ctx.settings.total_staked + operators > u64::MAX {
        Err(Refusal::Gar(GarError::ArithmeticOverflow))
    } else {
        Ok(
            DistributionResult {
                accounts: after_credits(ctx.accounts@, batch.pending, before, batch.total),
                epoch: Epoch {
                    distribution_index: batch.next as u32,
                    rewards_distributed: if done {
                        1
                    } else {
                        ctx.epoch.rewards_distributed
                    },
                    ..ctx.epoch
                },
                settings: GatewaySettings {
                    total_staked: (ctx.settings.total_staked + operators) as u64,
                    ..ctx.settings
                },
                transfer: minus_or_zero(before, cap_u64(orphaned)),
                event: if done {
                    Some(
                        EpochDistributedEvent {
                            epoch_index: ctx.epoch.epoch_index,
                            gateways_processed: ctx.epoch.active_gateway_count,
                            total_eligible_rewards: ctx.epoch.total_eligible_rewards,
                            timestamp: now,
                        },
                    )
                } else {
                    None
                },
            },
        )
    }
}

/// What distributing a batch comes to.
pub open spec fn distribution(ctx: DistributeEpoch, now: i64) -> Result<DistributionResult, Refusal> {
    match distribution_refusal(ctx, now) {
        Some(e) => Err(Refusal::Gar(e)),
        None => match assess_from(
            ctx,
            0,
            BatchState {
                next: ctx.epoch.distribution_index as int,
                total: 0,
                pending: Seq::empty(),
            },
        ) {
            Err(e) => Err(e),
            Ok(batch) => paid_out(ctx, batch, now),
        },
    }
}

/// How far a batch has been assessed.
struct Batch {
    next: usize,
    total: u64,
    pending: Vec<PendingDistribution>,
}

impl View for Batch {
    type V = BatchState;

    closed spec fn view(&self) -> BatchState {
        BatchState { next: self.next as int, total: self.total as int, pending: self.pending@ }
    }
}

/// Each pending reward is due to a gateway of the batch, and each gateway is due
/// one at most.
pub open spec fn pending_valid(accounts: Seq<GatewayAccount>, pending: Seq<PendingDistribution>) -> bool {
    &&& forall|i: int|
        0 <= i < pending.len() ==> (#[trigger] pending[i]).account < accounts.len()
            && accounts[pending[i].account as int].gateway is Some
    &&& forall|i: int, j: int|
        0 <= i < j < pending.len() ==> (#[trigger] pending[i]).account < (#[trigger] pending[j]).account
}

fn check_account(ctx: &DistributeEpoch, slots: &Vec<GatewaySlot>, k: usize, at: usize) -> (r: Result<
    PendingDistribution,
    Refusal,
>)
    requires
        slots@ == slots_in(ctx.registry, ctx.epoch),
        k < ctx.accounts@.len(),
        at < slots@.len(),
        at < 3000,
        ctx.epoch.observer_count <= 50,
    ensures
        r == assess_account(*ctx, k as int, at as int),
        r matches Ok(p) ==> p.account == k && ctx.accounts@[k as int].gateway is Some,
{
    let account = &ctx.accounts[k];
    if !account.owned {
        return Err(Refusal::Gar(GarError::InvalidGatewayAccount));
    }
    if !account.writable {
        return Err(Refusal::Gar(GarError::InvalidGatewayAccount));
    }
    match &account.gateway {
        None => Err(Refusal::Gar(GarError::InvalidGatewayAccount)),
        Some(gateway) => match gateway_address(&gateway.operator, &ctx.program_id) {
            None => Err(Refusal::NoProgramAddress),
            Some((expected, _bump)) => match assess_gateway(
                k,
                &account.key,
                &expected,
                gateway,
                &slots[at],
                at,
                &ctx.epoch,
                ctx.epoch_settings.missed_observation_penalty_rate,
            ) {
                Err(e) => Err(Refusal::Gar(e)),
                Ok(p) => Ok(p),
            },
        },
    }
}

fn assess_batch(ctx: &DistributeEpoch) -> (r: Result<Batch, Refusal>)
    requires
        ctx.registry.wf(),
        ctx.epoch.active_gateway_count <= 3000,
        ctx.epoch.observer_count <= 50,
    ensures
        match r {
            Ok(batch) => {
                &&& assess_from(
                    *ctx,
                    0,
                    BatchState {
                        next: ctx.epoch.distribution_index as int,
                        total: 0,
                        pending: Seq::empty(),
                    },
                ) == Ok::<BatchState, Refusal>(batch@)
                &&& pending_valid(ctx.accounts@, batch.pending@)
                &&& batch.total == full_total(batch.pending@)
                &&& batch.next <= u32::MAX
            },
            Err(e) => assess_from(
                *ctx,
                0,
                BatchState {
                    next: ctx.epoch.distribution_index as int,
                    total: 0,
                    pending: Seq::empty(),
                },
            ) == Err::<BatchState, Refusal>(e),
        },
{
    let slots: Vec<GatewaySlot> = gateway_slots(&ctx.registry, &ctx.epoch);
    let mut batch = Batch { next: ctx.epoch.distribution_index as usize, total: 0, pending: Vec::new() };
    let mut k: usize = 0;
    let active_count: usize = ctx.epoch.active_gateway_count as usize;
    let ghost start = BatchState {
        next: ctx.epoch.distribution_index as int,
        total: 0,
        pending: Seq::empty(),
    };
    assert(batch@ == start);
    while k < ctx.accounts.len() && batch.next < active_count
        invariant
            start == (BatchState {
                next: ctx.epoch.distribution_index as int,
                total: 0,
                pending: Seq::empty(),
            }),
            k <= ctx.accounts@.len(),
            active_count == ctx.epoch.active_gateway_count,
            active_count <= 3000,
            slots@ == slots_in(ctx.registry, ctx.epoch),
            ctx.epoch.observer_count <= 50,
            batch.next <= u32::MAX,
            assess_from(*ctx, k as int, batch@) == assess_from(*ctx, 0, start),
            pending_valid(ctx.accounts@, batch.pending@),
            forall|i: int| 0 <= i < batch.pending@.len() ==> (#[trigger] batch.pending@[i]).account < k,
            batch.total == full_total(batch.pending@),
        decreases ctx.accounts@.len() - k,
    {
        if slots[batch.next].address == Pubkey::default() {
            batch.next = batch.next + 1;
        } else {
            let p = match check_account(ctx, &slots, k, batch.next) {
                Err(e) => {
                    return Err(e);
                },
                Ok(p) => p,
            };
            match batch.total.checked_add(p.full_reward) {
                None => {
                    return Err(Refusal::Gar(GarError::ArithmeticOverflow));
                },
                Some(total) => {
                    batch.total = total;
                },
            }
            let ghost before = batch.pending@;
            batch.pending.push(p);
            assert(batch.pending@.drop_last() =~= before);
            batch.next = batch.next + 1;
        }
        k = k + 1;
    }
    Ok(batch)
}

/// The sum of scaled rewards.
pub open spec fn scaled_total(pending: Seq<PendingDistribution>, transfer: int, total: int) -> int
    decreases pending.len(),
{
    if pending.len() == 0 {
        0
    } else {
        scaled_total(pending.drop_last(), transfer, total) + scaled(pending.last(), transfer, total)
    }
}

/// One scaled reward is no more than the full one, and no more than its part of
/// the transfer.
proof fn lemma_scaled(p: PendingDistribution, transfer: int, total: int)
    requires
        0 <= transfer <= total,
    ensures
        scaled(p, transfer, total) == scaled_reward_of(p.full_reward, transfer, total),
        scaled(p, transfer, total) <= p.full_reward,
        scaled(p, transfer, total) * total <= p.full_reward * transfer,
{
    if total > 0 {
        let f: int = p.full_reward as int;
        lemma_share_bounded(transfer, f, total);
        vstd::arithmetic::div_mod::lemma_fundamental_div_mod(f * transfer, total);
        vstd::arithmetic::mul::lemma_mul_is_commutative(total, f * transfer / total);
        vstd::arithmetic::div_mod::lemma_mod_bound(f * transfer, total);
    } else {
        let f: int = p.full_reward as int;
        assert(f * transfer == 0) by (nonlinear_arith)
            requires
                transfer == 0,
        ;
    }
}

/// The scaled rewards never come to more than the transfer.
proof fn lemma_scaled_total(pending: Seq<PendingDistribution>, transfer: int, total: int)
    requires
        0 <= transfer <= total,
    ensures
        0 <= scaled_total(pending, transfer, total),
        scaled_total(pending, transfer, total) * total <= full_total(pending) * transfer,
        full_total(pending) >= 0,
    decreases pending.len(),
{
    if pending.len() > 0 {
        lemma_scaled_total(pending.drop_last(), transfer, total);
        let p = pending.last();
        lemma_scaled(p, transfer, total);
        let a: int = scaled_total(pending.drop_last(), transfer, total);
        let b: int = scaled(p, transfer, total) as int;
        let c: int = full_total(pending.drop_last());
        let f: int = p.full_reward as int;
        assert((a + b) * total == a * total + b * total) by (nonlinear_arith);
        assert((c + f) * transfer == c * transfer + f * transfer) by (nonlinear_arith);
    } else {
        assert(0 * total == 0 * transfer) by (nonlinear_arith);
    }
}

proof fn lemma_full_total_prefix(pending: Seq<PendingDistribution>, k: int)
    requires
        0 <= k <= pending.len(),
    ensures
        full_total(pending.take(k)) <= full_total(pending),
    decreases pending.len() - k,
{
    if k < pending.len() {
        lemma_full_total_prefix(pending, k + 1);
        assert(pending.take(k + 1).drop_last() =~= pending.take(k));
    } else {
        assert(pending.take(k) =~= pending);
    }
}

/// The scaled rewards of the first `k` gateways come to no more than the
/// transfer.
proof fn lemma_scaled_total_fits(pending: Seq<PendingDistribution>, k: int, transfer: int, total: int)
    requires
        0 <= k <= pending.len(),
        0 <= transfer <= total,
        total == full_total(pending),
    ensures
        0 <= scaled_total(pending.take(k), transfer, total) <= transfer,
{
    lemma_scaled_total(pending.take(k), transfer, total);
    lemma_full_total_prefix(pending, k);
    let s: int = scaled_total(pending.take(k), transfer, total);
    let c: int = full_total(pending.take(k));
    if total > 0 {
        assert(s <= transfer) by (nonlinear_arith)
            requires
                s * total <= c * transfer,
                0 <= c <= total,
                0 <= transfer,
                total > 0,
        ;
    } else {
        assert(s <= 0) by {
            lemma_zero_scaled(pending.take(k), transfer, total);
        }
    }
}

proof fn lemma_zero_scaled(pending: Seq<PendingDistribution>, transfer: int, total: int)
    requires
        total <= 0,
    ensures
        scaled_total(pending, transfer, total) == 0,
    decreases pending.len(),
{
    if pending.len() > 0 {
        lemma_zero_scaled(pending.drop_last(), transfer, total);
    }
}

/// What the operators are credited is part of the scaled rewards.
proof fn lemma_operator_total_bounded(
    accounts: Seq<GatewayAccount>,
    pending: Seq<PendingDistribution>,
    transfer: int,
    total: int,
)
    requires
        0 <= transfer <= total,
    ensures
        0 <= operator_total(accounts, pending, transfer, total) <= scaled_total(pending, transfer, total),
        0 <= orphaned_total(accounts, pending, transfer, total),
    decreases pending.len(),
{
    if pending.len() > 0 {
        lemma_operator_total_bounded(accounts, pending.drop_last(), transfer, total);
    }
}

/// Credits the rewards of a batch. Returns what the operators were credited, and
/// what would have gone to delegates that are gone.
fn credit_batch(
    accounts: Vec<GatewayAccount>,
    pending: &Vec<PendingDistribution>,
    transfer: u64,
    total: u64,
) -> (r: (Vec<GatewayAccount>, u64, u64))
    requires
        pending_valid(accounts@, pending@),
        total == full_total(pending@),
        transfer <= total,
    ensures
        r.0@ == after_credits(accounts@, pending@, transfer as int, total as int),
        r.1 == operator_total(accounts@, pending@, transfer as int, total as int),
        r.2 == cap_u64(orphaned_total(accounts@, pending@, transfer as int, total as int)),
{
    let mut current = accounts;
    let mut operators: u64 = 0;
    let mut orphaned: u64 = 0;
    let mut i: usize = 0;
    assert(pending@.take(0) =~= Seq::<PendingDistribution>::empty());
    while i < pending.len()
        invariant
            i <= pending@.len(),
            pending_valid(accounts@, pending@),
            total == full_total(pending@),
            transfer <= total,
            current@.len() == accounts@.len(),
            current@ == after_credits(accounts@, pending@.take(i as int), transfer as int, total as int),
            forall|j: int|
                0 <= j < accounts@.len() && (i > 0 ==> j > pending@[i - 1].account) ==> current@[j]
                    == accounts@[j],
            operators == operator_total(accounts@, pending@.take(i as int), transfer as int, total as int),
            orphaned == cap_u64(
                orphaned_total(accounts@, pending@.take(i as int), transfer as int, total as int),
            ),
        decreases pending@.len() - i,
    {
        let p = pending[i];
        let ghost prefix = pending@.take(i as int);
        proof {
            lemma_scaled(p, transfer as int, total as int);
            assert(pending@.take(i + 1).drop_last() =~= prefix);
            lemma_scaled_total_fits(pending@, i + 1, transfer as int, total as int);
            lemma_operator_total_bounded(accounts@, pending@.take(i + 1), transfer as int, total as int);
            lemma_operator_total_bounded(accounts@, prefix, transfer as int, total as int);
            if i > 0 {
                assert(pending@[i - 1].account < pending@[i as int].account);
            }
            assert(current@[p.account as int] == accounts@[p.account as int]);
            assert(0 * transfer == 0);
        }
        let amount: u64 = if total > 0 && p.full_reward > 0 {
            (mul_wide(p.full_reward, transfer) / (total as u128)) as u64
        } else {
            proof {
                if total > 0 {
                    let t: int = total as int;
                    assert(0int / t == 0) by (nonlinear_arith)
                        requires
                            t > 0,
                    ;
                }
            }
            0
        };
        assert(amount == scaled(p, transfer as int, total as int));
        let (operator, orphan) = match &mut current[p.account].gateway {
            Some(gateway) => credit_gateway(gateway, &p, amount),
            None => (0, 0),
        };
        operators = operators.saturating_add(operator);
        orphaned = orphaned.saturating_add(orphan);
        i = i + 1;
    }
    assert(pending@.take(pending@.len() as int) =~= pending@);
    (current, operators, orphaned)
}

/// The name by which the treasury's program knows the release of tokens:
/// `global:release_treasury_to_recipient`.
pub const RELEASE_TREASURY_NAME: [u8; 36] = [
    103, 108, 111, 98, 97, 108, 58, 114, 101, 108, 101, 97, 115, 101, 95, 116, 114, 101, 97, 115, 117, 114, 121, 95, 116, 111, 95, 114, 101, 99, 105, 112, 105, 101, 110, 116,
];

/// The data of the call that releases `amount` from the treasury to the stake
/// pool: the first eight bytes of the digest of its name, and the amount.
pub open spec fn release_data(amount: u64) -> Seq<u8> {
    sha256(RELEASE_TREASURY_NAME@).take(8) + le_bytes_u64(amount)
}

/// The data of the call that releases `amount` from the treasury to the stake
/// pool.
pub fn release_treasury_data(amount: u64) -> (r: Vec<u8>)
    ensures
        r@ == release_data(amount),
{
    let digest: [u8; 32] = sha256_hash(&bytes_of(&RELEASE_TREASURY_NAME));
    let mut data: Vec<u8> = Vec::new();
    let mut i: usize = 0;
    while i < 8
        invariant
            i <= 8,
            data@ == digest@.take(i as int),
        decreases 8 - i,
    {
        data.push(digest[i]);
        assert(data@ =~= digest@.take(i + 1));
        i = i + 1;
    }
    let mut tail: Vec<u8> = u64_to_le_bytes(amount);
    data.append(&mut tail);
    data
}

/// What distributing a batch reports: the event of the last batch, and the data of
/// the call that moves the tokens, empty if there are none to move.
pub struct DistributionReport {
    pub event: Option<EpochDistributedEvent>,
    pub release_data: Vec<u8>,
}

/// Pays out the rewards of the gateways in one batch. Call it until the epoch is
/// distributed. Where the treasury holds less than the batch is due, every reward
/// is scaled down in the same proportion, so that what is credited is never more
/// than what is transferred.
pub fn distribute_epoch(ctx: DistributeEpoch, now: i64) -> (r: Result<
    Outcome<DistributeEpoch, DistributionReport>,
    Refusal,
>)
    requires
        ctx.registry.wf(),
        ctx.epoch.active_gateway_count <= 3000,
        ctx.epoch.observer_count <= 50,
    ensures
        match r {
            Err(e) => distribution(ctx, now) == Err::<DistributionResult, Refusal>(e),
            Ok(o) => {
                &&& distribution(ctx, now) matches Ok(d)
                &&& o.accounts.accounts@ == d.accounts
                &&& o.accounts == (DistributeEpoch {
                    accounts: o.accounts.accounts,
                    epoch: d.epoch,
                    settings: d.settings,
                    ..ctx
                })
                &&& o.transfers@ == transfer_if_any(Holder::Treasury, Holder::StakePool, d.transfer)
                &&& o.event.event == d.event
                &&& o.event.release_data@ == if d.transfer > 0 {
                    release_data(d.transfer as u64)
                } else {
                    Seq::empty()
                }
            },
        },
{
    if ctx.protocol_token_account != ctx.settings.protocol_token_account {
        return Err(Refusal::Gar(GarError::InvalidParameter));
    }
    if ctx.stake_token_account != ctx.settings.stake_token_account {
        return Err(Refusal::Gar(GarError::InvalidParameter));
    }
    if ctx.epoch.prescriptions_done == 0 {
        return Err(Refusal::Gar(GarError::PrescriptionsNotDone));
    }
    if now < ctx.epoch.end_timestamp {
        return Err(Refusal::Gar(GarError::EpochInProgress));
    }
    if ctx.epoch.rewards_distributed != 0 {
        return Err(Refusal::Gar(GarError::RewardsAlreadyDistributed));
    }
    let batch = match assess_batch(&ctx) {
        Err(e) => {
            return Err(e);
        },
        Ok(batch) => batch,
    };
    let available: u64 = ctx.protocol_balance;
    let capped: u64 = if batch.total <= available {
        batch.total
    } else {
        available
    };
    let mut ctx = ctx;
    let (accounts, operators, orphaned) = credit_batch(ctx.accounts, &batch.pending, capped, batch.total);
    ctx.accounts = accounts;
    let amount: u64 = capped.saturating_sub(orphaned);
    ctx.epoch.distribution_index = batch.next as u32;
    let mut event: Option<EpochDistributedEvent> = None;
    if batch.next >= ctx.epoch.active_gateway_count as usize {
        ctx.epoch.rewards_distributed = 1;
        event = Some(
            EpochDistributedEvent {
                epoch_index: ctx.epoch.epoch_index,
                gateways_processed: ctx.epoch.active_gateway_count,
                total_eligible_rewards: ctx.epoch.total_eligible_rewards,
                timestamp: now,
            },
        );
    }
    match ctx.settings.total_staked.checked_add(operators) {
        None => {
            return Err(Refusal::Gar(GarError::ArithmeticOverflow));
        },
        Some(total) => {
            ctx.settings.total_staked = total;
        },
    }
    let mut transfers: Vec<TokenTransfer> = Vec::new();
    let mut data: Vec<u8> = Vec::new();
    if amount > 0 {
        transfers.push(TokenTransfer { from: Holder::Treasury, to: Holder::StakePool, amount });
        data = release_treasury_data(amount);
    }
    Ok(
        Outcome {
            accounts: ctx,
            transfers,
            event: DistributionReport { event, release_data: data },
        },
    )
}

/// The delegates of no gateway of the batch are promised more than the whole
/// reward; `join_network` and `update_gateway_settings` see to that.
pub open spec fn shares_valid(accounts: Seq<GatewayAccount>, pending: Seq<PendingDistribution>) -> bool {
    forall|i: int|
        0 <= i < pending.len() ==> gateway_of(
            accounts,
            #[trigger] pending[i],
        ).settings.delegate_reward_share_ratio <= 10_000
}

/// Operators and delegates share the scaled rewards.
proof fn lemma_credits_within_scaled(
    accounts: Seq<GatewayAccount>,
    pending: Seq<PendingDistribution>,
    transfer: int,
    total: int,
)
    requires
        0 <= transfer <= total,
        shares_valid(accounts, pending),
    ensures
        0 <= delegate_total(accounts, pending, transfer, total),
        operator_total(accounts, pending, transfer, total) + delegate_total(accounts, pending, transfer, total)
            + orphaned_total(accounts, pending, transfer, total) <= scaled_total(pending, transfer, total),
    decreases pending.len(),
{
    if pending.len() > 0 {
        let p = pending.last();
        assert(pending[pending.len() - 1] == p);
        lemma_credits_within_scaled(accounts, pending.drop_last(), transfer, total);
        let g = gateway_of(accounts, p);
        split_conserves_reward(
            scaled(p, transfer, total),
            g.settings.delegate_reward_share_ratio,
            p.had_delegation_at_tally,
        );
    }
}

proof fn lemma_assessed_batch(ctx: DistributeEpoch, k: int, st: BatchState)
    requires
        st.total == full_total(st.pending),
        assess_from(ctx, k, st) is Ok,
    ensures
        ({
            let batch = assess_from(ctx, k, st)->Ok_0;
            batch.total == full_total(batch.pending)
        }),
    decreases ctx.accounts@.len() - k,
{
    if k >= ctx.accounts@.len() || st.next >= ctx.epoch.active_gateway_count {
    } else if slots_in(ctx.registry, ctx.epoch)[st.next].address == Pubkey::zero() {
        lemma_assessed_batch(ctx, k + 1, BatchState { next: st.next + 1, ..st });
    } else {
        let p = assess_account(ctx, k, st.next)->Ok_0;
        assert(st.pending.push(p).drop_last() =~= st.pending);
        lemma_assessed_batch(
            ctx,
            k + 1,
            BatchState {
                next: st.next + 1,
                total: st.total + p.full_reward,
                pending: st.pending.push(p),
            },
        );
    }
}

/// The batch that `distribute_epoch` assesses.
pub open spec fn assessed_batch(ctx: DistributeEpoch) -> Result<BatchState, Refusal> {
    assess_from(
        ctx,
        0,
        BatchState { next: ctx.epoch.distribution_index as int, total: 0, pending: Seq::empty() },
    )
}

/// What is credited to operators and delegates is covered by what is transferred
/// to the stake pool, which is never more than the treasury holds or the batch is
/// due. What nobody is left to take stays in the treasury.
pub proof fn credits_are_covered(ctx: DistributeEpoch, now: i64)
    requires
        distribution(ctx, now) is Ok,
        shares_valid(ctx.accounts@, assessed_batch(ctx)->Ok_0.pending),
    ensures
        ({
            let d = distribution(ctx, now)->Ok_0;
            let batch = assessed_batch(ctx)->Ok_0;
            let before = lesser(batch.total, ctx.protocol_balance as int);
            &&& operator_total(ctx.accounts@, batch.pending, before, batch.total) + delegate_total(
                ctx.accounts@,
                batch.pending,
                before,
                batch.total,
            ) <= d.transfer
            &&& d.transfer + orphaned_total(ctx.accounts@, batch.pending, before, batch.total) == before
            &&& d.transfer <= ctx.protocol_balance
            &&& d.transfer <= batch.total
        }),
{
    let batch = assessed_batch(ctx)->Ok_0;
    let before = lesser(batch.total, ctx.protocol_balance as int);
    lemma_assessed_batch(
        ctx,
        0,
        BatchState { next: ctx.epoch.distribution_index as int, total: 0, pending: Seq::empty() },
    );
    lemma_scaled_total(batch.pending, 0, 0);
    lemma_credits_within_scaled(ctx.accounts@, batch.pending, before, batch.total);
    lemma_operator_total_bounded(ctx.accounts@, batch.pending, before, batch.total);
    assert(batch.pending.take(batch.pending.len() as int) =~= batch.pending);
    lemma_scaled_total_fits(batch.pending, batch.pending.len() as int, before, batch.total);
}

/// A gateway that is leaving is paid nothing and its record does not change.
pub proof fn leaving_gateway_is_untouched(
    account: int,
    gateway: Gateway,
    slot: GatewaySlot,
    at: int,
    epoch: Epoch,
    penalty_rate: u64,
    transfer: int,
    total: int,
)
    requires
        gateway.status == GatewayStatus::Leaving,
        0 <= transfer <= total,
    ensures
        ({
            let p = assessed(account, gateway, slot, at, epoch, penalty_rate);
            &&& scaled(p, transfer, total) == 0
            &&& credited(gateway, p, scaled(p, transfer, total)) == gateway
        }),
{
    let p = assessed(account, gateway, slot, at, epoch, penalty_rate);
    lemma_scaled(p, transfer, total);
    let ratio: int = gateway.settings.delegate_reward_share_ratio as int;
    assert(0 * ratio == 0);
    let stake: int = gateway.total_delegated_stake as int;
    if stake > 0 {
        assert(0int / stake == 0) by (nonlinear_arith)
            requires
                stake > 0,
        ;
    }
}

/// What the operator is credited does not depend on how much delegated stake is
/// left: delegates that were forced out after the tally leave nothing to the
/// operator.
pub proof fn operator_gains_nothing_from_lost_delegates(
    gateway: Gateway,
    left: u64,
    p: PendingDistribution,
    scaled: u64,
)
    ensures
        operator_credit(Gateway { total_delegated_stake: left, ..gateway }, p, scaled) == operator_credit(
            gateway,
            p,
            scaled,
        ),
{
}

/// Delegates collect no more from a reward than their part of it: a delegation of
/// `amount` out of `stake` earns at most `pool * amount / stake`.
pub proof fn delegates_collect_their_part_at_most(pool: u64, amount: u64, stake: u64)
    requires
        amount <= stake,
        stake > 0,
    ensures
        crate::state::rewards::earned(amount, pool * REWARD_PRECISION / stake as int) <= pool * amount
            / stake as int <= pool,
{
    let s: int = stake as int;
    let a: int = amount as int;
    let q: int = pool as int;
    let p: int = REWARD_PRECISION as int;
    let inc: int = q * p / s;
    vstd::arithmetic::div_mod::lemma_fundamental_div_mod(q * p, s);
    vstd::arithmetic::div_mod::lemma_mod_bound(q * p, s);
    assert(inc * s <= q * p) by {
        vstd::arithmetic::mul::lemma_mul_is_commutative(s, inc);
    }
    assert(q * p >= 0) by (nonlinear_arith)
        requires
            q >= 0,
            p >= 0,
    ;
    vstd::arithmetic::div_mod::lemma_div_pos_is_pos(q * p, s);
    let e: int = a * inc / p;
    vstd::arithmetic::div_mod::lemma_fundamental_div_mod(a * inc, p);
    vstd::arithmetic::div_mod::lemma_mod_bound(a * inc, p);
    assert(e * p <= a * inc) by {
        vstd::arithmetic::mul::lemma_mul_is_commutative(p, e);
    }
    // e * p * s <= a * inc * s <= a * q * p
    assert(e * s <= q * a) by {
        assert((e * p) * s <= (a * inc) * s) by (nonlinear_arith)
            requires
                e * p <= a * inc,
                s > 0,
        ;
        assert((a * inc) * s == a * (inc * s)) by (nonlinear_arith);
        assert(a * (inc * s) <= a * (q * p)) by (nonlinear_arith)
            requires
                inc * s <= q * p,
                a >= 0,
        ;
        assert((e * p) * s == (e * s) * p) by (nonlinear_arith);
        assert(a * (q * p) == (q * a) * p) by (nonlinear_arith);
        assert(e * s <= q * a) by (nonlinear_arith)
            requires
                (e * s) * p <= (q * a) * p,
                p > 0,
        ;
    }
    vstd::arithmetic::div_mod::lemma_div_is_ordered(e * s, q * a, s);
    vstd::arithmetic::div_mod::lemma_div_by_multiple(e, s);
    lemma_share_bounded(a, q, s);
}

/// A reward that is credited to a gateway is shared out among its delegates at most
/// once: however they are settled afterwards, in any order, once or repeatedly, they
/// gain no more together than the delegates' part of the reward.
pub proof fn delegates_together_collect_their_credit_at_most(
    gateway: Gateway,
    p: PendingDistribution,
    scaled: u64,
    delegations: Seq<Delegation>,
    places: Seq<int>,
)
    requires
        amount_total(delegations) <= gateway.total_delegated_stake,
        forall|i: int|
            0 <= i < delegations.len() ==> (#[trigger] delegations[i]).reward_debt
                == gateway.cumulative_reward_per_token,
        forall|i: int| 0 <= i < places.len() ==> 0 <= #[trigger] places[i] < delegations.len(),
    ensures
        ({
            let (g, ds) = settled_in_turn(
                credited(gateway, p, scaled),
                delegations,
                places,
                places.len() as int,
            );
            &&& amount_total(ds) - amount_total(delegations) <= delegate_credit(gateway, p, scaled)
            &&& g.total_delegated_stake - gateway.total_delegated_stake <= delegate_credit(gateway, p, scaled)
        }),
{
    let g = credited(gateway, p, scaled);
    let debt = gateway.cumulative_reward_per_token;
    let pool = delegate_credit(gateway, p, scaled);
    assert(0 <= pool <= u64::MAX);
    if gateway.total_delegated_stake > 0 {
        assert(pool * REWARD_PRECISION >= 0) by (nonlinear_arith)
            requires
                pool >= 0,
        ;
        vstd::arithmetic::div_mod::lemma_div_pos_is_pos(
            pool * REWARD_PRECISION,
            gateway.total_delegated_stake as int,
        );
        settling_gains_the_pool_at_most(
            g,
            delegations,
            places,
            debt,
            pool as u64,
            gateway.total_delegated_stake,
        );
    } else {
        settling_gains_the_pool_at_most(g, delegations, places, debt, 0, 1);
    }
}

proof fn lemma_batch_progress(ctx: DistributeEpoch, k: int, st: BatchState)
    requires
        0 <= k <= ctx.accounts@.len(),
        st.next <= ctx.epoch.active_gateway_count,
        assess_from(ctx, k, st) is Ok,
    ensures
        assess_from(ctx, k, st)->Ok_0.next == lesser(
            st.next + (ctx.accounts@.len() - k),
            ctx.epoch.active_gateway_count as int,
        ),
    decreases ctx.accounts@.len() - k,
{
    if k >= ctx.accounts@.len() || st.next >= ctx.epoch.active_gateway_count {
    } else if slots_in(ctx.registry, ctx.epoch)[st.next].address == Pubkey::zero() {
        lemma_batch_progress(ctx, k + 1, BatchState { next: st.next + 1, ..st });
    } else {
        let p = assess_account(ctx, k, st.next)->Ok_0;
        lemma_batch_progress(
            ctx,
            k + 1,
            BatchState {
                next: st.next + 1,
                total: st.total + p.full_reward,
                pending: st.pending.push(p),
            },
        );
    }
}

/// Every account of a batch stands for the next gateway of the epoch, so that no
/// gateway is paid twice: the batch goes as far as it has accounts, and the epoch
/// is distributed exactly when all its gateways have been gone through. After that
/// it is not distributed again.
pub proof fn distribution_goes_through_once(ctx: DistributeEpoch, now: i64, again: DistributeEpoch, later: i64)
    requires
        ctx.epoch.distribution_index <= ctx.epoch.active_gateway_count,
        distribution(ctx, now) is Ok,
        again.epoch == distribution(ctx, now)->Ok_0.epoch,
    ensures
        ({
            let d = distribution(ctx, now)->Ok_0;
            &&& d.epoch.distribution_index == lesser(
                ctx.epoch.distribution_index + ctx.accounts@.len(),
                ctx.epoch.active_gateway_count as int,
            )
            &&& (d.epoch.rewards_distributed == 1) == (d.epoch.distribution_index
                == ctx.epoch.active_gateway_count)
            &&& d.event is Some <==> d.epoch.rewards_distributed == 1
            &&& d.epoch.rewards_distributed == 1 ==> distribution(again, later) is Err
        }),
{
    lemma_batch_progress(
        ctx,
        0,
        BatchState { next: ctx.epoch.distribution_index as int, total: 0, pending: Seq::empty() },
    );
}

/// The delegates' part is what the share ratio gives out of ten thousand, and nothing
/// without delegated stake at the tally. The operator has the rest.
pub proof fn split_gives_delegates_their_ratio(scaled: u64, ratio: u16, had_delegation: bool, r: (u64, u64))
    requires
        call_ensures(split_scaled_reward, (scaled, ratio, had_delegation), r),
        ratio <= 10_000,
    ensures
        r.0 + r.1 == scaled,
        had_delegation ==> is_part(r.1 as int, scaled as int, ratio as int, 10_000),
        !had_delegation ==> r.1 == 0,
{
    lemma_quotient_is_part(scaled as int, ratio as int, 10_000);
    lemma_share_bounded(ratio as int, scaled as int, 10_000);
}

/// A gateway that passed earns the gateway reward. If it was to observe, it earns the
/// observer reward on top if it did, and is docked the penalty if it did not. A gateway
/// that failed earns the observer reward alone, if it observed. A leaving gateway earns
/// nothing.
pub proof fn full_reward_goes_by_conduct(
    per_gateway: u64,
    per_observer: u64,
    penalty_rate: u64,
    is_leaving: bool,
    failed: bool,
    is_prescribed: bool,
    is_observed: bool,
    r: u64,
)
    requires
        call_ensures(
            compute_full_reward,
            (per_gateway, per_observer, penalty_rate, is_leaving, failed, is_prescribed, is_observed),
            r,
        ),
    ensures
        is_leaving ==> r == 0,
        !is_leaving && failed && is_prescribed && is_observed ==> r == per_observer,
        !is_leaving && failed && !(is_prescribed && is_observed) ==> r == 0,
        !is_leaving && !failed && !is_prescribed ==> r == per_gateway,
        !is_leaving && !failed && is_prescribed && is_observed && per_gateway + per_observer <= u64::MAX ==> r
            == per_gateway + per_observer,
        !is_leaving && !failed && is_prescribed && is_observed && per_gateway + per_observer > u64::MAX ==> r
            == u64::MAX,
        !is_leaving && !failed && is_prescribed && !is_observed && penalty_rate <= 1_000_000 ==> is_part(
            r as int,
            per_gateway as int,
            1_000_000 - penalty_rate,
            1_000_000,
        ),
        !is_leaving && !failed && is_prescribed && !is_observed && penalty_rate >= 1_000_000 ==> r == 0,
{
    let g: int = per_gateway as int;
    if penalty_rate <= 1_000_000 {
        lemma_quotient_is_part(g, 1_000_000 - penalty_rate, 1_000_000);
        lemma_share_bounded(1_000_000 - penalty_rate, g, 1_000_000);
    }
    assert(g * 0 == 0);
}

proof fn lemma_prescribed_at_finds(gateways: Seq<Pubkey>, n: int, operator: Pubkey)
    ensures
        match prescribed_at(gateways, n, operator) {
            Some(i) => 0 <= i < n && gateways[i] == operator && forall|j: int| 0 <= j < i ==> gateways[j] != operator,
            None => forall|j: int| 0 <= j < n ==> gateways[j] != operator,
        },
    decreases n,
{
    if n > 0 {
        lemma_prescribed_at_finds(gateways, n - 1, operator);
    }
}

/// What a gateway is due goes by its own record in the epoch: whether it is leaving,
/// whether more than half of the reports failed it, whether it stands among the
/// prescribed gateways, and whether its observer has reported.
pub proof fn assessment_reads_the_epochs_record(
    account: usize,
    key: Pubkey,
    expected: Pubkey,
    gateway: Gateway,
    slot: GatewaySlot,
    at: usize,
    epoch: Epoch,
    penalty_rate: u64,
    full: u64,
    r: Result<PendingDistribution, GarError>,
)
    requires
        at < 3000,
        epoch.observer_count <= 50,
        call_ensures(
            assess_gateway,
            (account, &key, &expected, &gateway, &slot, at, &epoch, penalty_rate),
            r,
        ),
        r matches Ok(p) ==> call_ensures(
            compute_full_reward,
            (
                epoch.per_gateway_reward,
                epoch.per_observer_reward,
                penalty_rate,
                p.is_leaving,
                p.failed,
                p.is_prescribed,
                p.is_observed,
            ),
            full,
        ),
    ensures
        r is Ok <==> key == expected && slot.address == gateway.operator && (gateway.status == GatewayStatus::Leaving
            || gateway.weights.weights_epoch == epoch.epoch_index),
        r matches Err(e) ==> match e {
            GarError::InvalidGatewayAccount => key != expected || slot.address != gateway.operator,
            GarError::WeightsNotTallied => gateway.status != GatewayStatus::Leaving && gateway.weights.weights_epoch
                != epoch.epoch_index,
            _ => false,
        },
        r matches Ok(p) ==> {
            let names = epoch.prescribed_observer_gateways@;
            &&& p.account == account
            &&& p.is_leaving <==> gateway.status == GatewayStatus::Leaving
            &&& p.failed <==> epoch.observations_submitted > 0 && 2 * epoch.failure_counts@[at as int]
                > epoch.observations_submitted
            &&& p.is_prescribed <==> exists|i: int| 0 <= i < epoch.observer_count && #[trigger] names[i] == gateway.operator
            &&& p.is_observed ==> p.is_prescribed
            &&& forall|i: int|
                0 <= i < epoch.observer_count && #[trigger] names[i] == gateway.operator && (forall|j: int|
                    0 <= j < i ==> names[j] != gateway.operator) ==> (p.is_observed <==> epoch.observed(i))
            &&& p.had_delegation_at_tally <==> slot.delegated_at_tally != 0
            &&& p.full_reward == full
        },
{
    lemma_prescribed_at_finds(epoch.prescribed_observer_gateways@, epoch.observer_count as int, gateway.operator);
}

/// The record of a gateway that is not leaving has one epoch more, passed or failed,
/// with a run of the same kind one longer and one of the other ended; the record of a
/// leaving one does not change.
pub proof fn record_counts_the_epoch(stats: &mut GatewayStats, p: PendingDistribution)
    requires
        call_ensures(update_stats, (stats, &p), ()),
    ensures
        ({
            let (s, s2) = (*old(stats), *final(stats));
            &&& p.is_leaving ==> s2 == s
            &&& !p.is_leaving ==> {
                &&& s.total_epochs < u32::MAX ==> s2.total_epochs == s.total_epochs + 1
                &&& !p.failed ==> {
                    &&& s.passed_epochs < u32::MAX ==> s2.passed_epochs == s.passed_epochs + 1
                    &&& s2.failed_epochs == s.failed_epochs
                    &&& s.passed_consecutive < u8::MAX ==> s2.passed_consecutive == s.passed_consecutive + 1
                    &&& s2.failed_consecutive == 0
                }
                &&& p.failed ==> {
                    &&& s.failed_epochs < u32::MAX ==> s2.failed_epochs == s.failed_epochs + 1
                    &&& s2.passed_epochs == s.passed_epochs
                    &&& s.failed_consecutive < u8::MAX ==> s2.failed_consecutive == s.failed_consecutive + 1
                    &&& s2.passed_consecutive == 0
                }
                &&& p.is_prescribed && s.prescribed_epochs < u32::MAX ==> s2.prescribed_epochs == s.prescribed_epochs + 1
                &&& !p.is_prescribed ==> s2.prescribed_epochs == s.prescribed_epochs
                &&& p.is_prescribed && p.is_observed && s.observed_epochs < u32::MAX ==> s2.observed_epochs
                    == s.observed_epochs + 1
                &&& !(p.is_prescribed && p.is_observed) ==> s2.observed_epochs == s.observed_epochs
                &&& s2.total_epochs >= s.total_epochs && s2.passed_epochs >= s.passed_epochs
                &&& s2.failed_epochs >= s.failed_epochs && s2.observed_epochs >= s.observed_epochs
                &&& s2.prescribed_epochs >= s.prescribed_epochs
                &&& s.failed_consecutive == u8::MAX && p.failed ==> s2.failed_consecutive == u8::MAX
            }
        }),
{
}

proof fn lemma_credited(gateway: Gateway, p: PendingDistribution, scaled: u64)
    requires
        gateway.settings.delegate_reward_share_ratio <= 10_000,
    ensures
        ({
            let g2 = credited(gateway, p, scaled);
            let pool = pool_of(gateway, p, scaled);
            &&& 0 <= pool <= scaled
            &&& p.had_delegation_at_tally ==> is_part(
                pool,
                scaled as int,
                gateway.settings.delegate_reward_share_ratio as int,
                10_000,
            )
            &&& !p.had_delegation_at_tally ==> pool == 0
            &&& gateway.status == GatewayStatus::Joined && gateway.operator_stake + scaled <= u64::MAX
                ==> g2.operator_stake == gateway.operator_stake + (scaled - pool)
            &&& gateway.status != GatewayStatus::Joined ==> g2.operator_stake == gateway.operator_stake
            &&& gateway.total_delegated_stake == 0 ==> g2.cumulative_reward_per_token
                == gateway.cumulative_reward_per_token
            &&& g2.cumulative_reward_per_token >= gateway.cumulative_reward_per_token
            &&& gateway.total_delegated_stake > 0 && gateway.cumulative_reward_per_token + pool
                * 1_000_000_000_000_000_000 <= u128::MAX ==> is_part(
                g2.cumulative_reward_per_token - gateway.cumulative_reward_per_token,
                pool,
                1_000_000_000_000_000_000,
                gateway.total_delegated_stake as int,
            )
        }),
{
    let ratio: int = gateway.settings.delegate_reward_share_ratio as int;
    lemma_quotient_is_part(scaled as int, ratio, 10_000);
    lemma_share_bounded(ratio, scaled as int, 10_000);
    let pool: int = pool_of(gateway, p, scaled);
    let t: int = gateway.total_delegated_stake as int;
    if t > 0 {
        let x: int = pool * 1_000_000_000_000_000_000;
        lemma_quotient_is_part(pool, 1_000_000_000_000_000_000, t);
        vstd::arithmetic::div_mod::lemma_div_pos_is_pos(x, t);
        vstd::arithmetic::div_mod::lemma_div_is_ordered_by_denominator(x, 1, t);
    }
}

/// Crediting a gateway stakes the operator's part, and raises the accumulator over its
/// old level by exactly the delegates' part per token staked with the gateway, counted
/// by 10^18. Where no delegated stake is left, the delegates' part is handed back.
pub proof fn crediting_raises_the_accumulator_by_the_pool(
    gateway: &mut Gateway,
    p: PendingDistribution,
    scaled: u64,
    split: (u64, u64),
    r: (u64, u64),
)
    requires
        call_ensures(
            split_scaled_reward,
            (scaled, old(gateway).settings.delegate_reward_share_ratio, p.had_delegation_at_tally),
            split,
        ),
        call_ensures(credit_gateway, (gateway, &p, scaled), r),
        old(gateway).settings.delegate_reward_share_ratio <= 10_000,
    ensures
        ({
            let (g, g2) = (*old(gateway), *final(gateway));
            let (operators, pool) = split;
            &&& g2 == (Gateway {
                operator_stake: g2.operator_stake,
                cumulative_reward_per_token: g2.cumulative_reward_per_token,
                stats: g2.stats,
                ..g
            })
            &&& g.status == GatewayStatus::Joined ==> r.0 == operators
            &&& g.status == GatewayStatus::Joined && g.operator_stake + operators <= u64::MAX ==> g2.operator_stake
                == g.operator_stake + operators
            &&& g.status != GatewayStatus::Joined ==> r.0 == 0 && g2.operator_stake == g.operator_stake
            &&& g.total_delegated_stake == 0 ==> r.1 == pool && g2.cumulative_reward_per_token
                == g.cumulative_reward_per_token
            &&& g.total_delegated_stake > 0 ==> r.1 == 0
            &&& g.total_delegated_stake > 0 && g.cumulative_reward_per_token + pool * 1_000_000_000_000_000_000
                <= u128::MAX ==> is_part(
                g2.cumulative_reward_per_token - g.cumulative_reward_per_token,
                pool as int,
                1_000_000_000_000_000_000,
                g.total_delegated_stake as int,
            )
            &&& g2.cumulative_reward_per_token >= g.cumulative_reward_per_token
            &&& operators + pool == scaled
        }),
{
    lemma_credited(*old(gateway), p, scaled);
}

/// Crediting a gateway adds the epoch to its record, as `update_stats` does.
pub proof fn crediting_adds_the_epoch_to_the_record(
    gateway: &mut Gateway,
    stats: &mut GatewayStats,
    p: PendingDistribution,
    scaled: u64,
    r: (u64, u64),
)
    requires
        *old(stats) == old(gateway).stats,
        call_ensures(update_stats, (stats, &p), ()),
        call_ensures(credit_gateway, (gateway, &p, scaled), r),
    ensures
        final(gateway).stats == *final(stats),
{
}

/// Whatever the level of the accumulator was, delegations that hold the whole delegated
/// stake, and were settled at that level, gain together all of the delegates' part of a
/// reward that is credited, but for what rounding loses: less than one unit per
/// delegation, and less than one more where the stake is 10^18 at most.
pub proof fn delegates_together_collect_their_credit_but_for_rounding(
    gateway: &mut Gateway,
    p: PendingDistribution,
    scaled: u64,
    split: (u64, u64),
    r: (u64, u64),
    delegations: Seq<Delegation>,
    settled: Seq<Delegation>,
)
    requires
        call_ensures(
            split_scaled_reward,
            (scaled, old(gateway).settings.delegate_reward_share_ratio, p.had_delegation_at_tally),
            split,
        ),
        call_ensures(credit_gateway, (gateway, &p, scaled), r),
        old(gateway).settings.delegate_reward_share_ratio <= 10_000,
        old(gateway).total_delegated_stake > 0,
        amount_total(delegations) == old(gateway).total_delegated_stake,
        old(gateway).total_delegated_stake + split.1 <= u64::MAX,
        old(gateway).cumulative_reward_per_token + split.1 * 1_000_000_000_000_000_000 <= u128::MAX,
        settled.len() == delegations.len(),
        forall|i: int|
            0 <= i < delegations.len() ==> (#[trigger] delegations[i]).reward_debt
                == old(gateway).cumulative_reward_per_token,
        forall|i: int|
            0 <= i < delegations.len() ==> #[trigger] settled[i] == settled_delegation(
                final(gateway).cumulative_reward_per_token,
                delegations[i],
            ),
    ensures
        ({
            let gained = amount_total(settled) - amount_total(delegations);
            let stake = old(gateway).total_delegated_stake;
            &&& gained <= split.1
            &&& gained * 1_000_000_000_000_000_000 + delegations.len() * 1_000_000_000_000_000_000 + stake >= split.1
                * 1_000_000_000_000_000_000
            &&& stake <= 1_000_000_000_000_000_000 ==> gained + delegations.len() >= split.1
        }),
{
    lemma_credited(*old(gateway), p, scaled);
    settling_gains_the_pool_but_for_rounding(
        final(gateway).cumulative_reward_per_token,
        old(gateway).cumulative_reward_per_token,
        delegations,
        settled,
        split.1,
        old(gateway).total_delegated_stake,
    );
}

/// The rewards due among the first `n` accounts of a batch: those whose slot is not
/// cleared.
spec fn kept(slots: Seq<GatewaySlot>, from: int, dues: Seq<PendingDistribution>, n: int) -> Seq<PendingDistribution>
    decreases n,
{
    if n <= 0 {
        Seq::empty()
    } else if slots[from + n - 1].address == Pubkey::zero() {
        kept(slots, from, dues, n - 1)
    } else {
        kept(slots, from, dues, n - 1).push(dues[n - 1])
    }
}

/// The rewards due, taken account by account, are those that are kept.
proof fn lemma_batch_is_kept(ctx: DistributeEpoch, k: int, st: BatchState, dues: Seq<PendingDistribution>)
    requires
        ctx.registry.wf(),
        0 <= k <= dues.len() <= ctx.accounts@.len(),
        ctx.epoch.distribution_index + dues.len() <= ctx.epoch.active_gateway_count <= 3000,
        dues.len() == ctx.accounts@.len() || ctx.epoch.distribution_index + dues.len()
            == ctx.epoch.active_gateway_count,
        st.next == ctx.epoch.distribution_index + k,
        st.total == sum_of(k, |j: int| dues[j].full_reward as int),
        st.pending == kept(slots_in(ctx.registry, ctx.epoch), ctx.epoch.distribution_index as int, dues, k),
        forall|j: int|
            0 <= j < dues.len() ==> if slots_in(ctx.registry, ctx.epoch)[ctx.epoch.distribution_index + j].address
                == Pubkey::zero() {
                (#[trigger] dues[j]).full_reward == 0
            } else {
                assess_account(ctx, j, ctx.epoch.distribution_index + j) == Ok::<_, Refusal>(dues[j])
            },
    ensures
        sum_of(dues.len() as int, |j: int| dues[j].full_reward as int) <= u64::MAX ==> assess_from(ctx, k, st) is Ok,
        assess_from(ctx, k, st) matches Ok(batch) ==> {
            &&& batch.next == ctx.epoch.distribution_index + dues.len()
            &&& batch.total == sum_of(dues.len() as int, |j: int| dues[j].full_reward as int)
            &&& batch.pending == kept(
                slots_in(ctx.registry, ctx.epoch),
                ctx.epoch.distribution_index as int,
                dues,
                dues.len() as int,
            )
        },
    decreases dues.len() - k,
{
    if k < dues.len() {
        let f = |j: int| dues[j].full_reward as int;
        let slots = slots_in(ctx.registry, ctx.epoch);
        let p = dues[k];
        assert(sum_of(k + 1, f) == sum_of(k, f) + f(k));
        lemma_sum_of_rewards_grows(dues, k + 1, dues.len() as int);
        if slots[st.next].address == Pubkey::zero() {
            lemma_batch_is_kept(ctx, k + 1, BatchState { next: st.next + 1, ..st }, dues);
        } else {
            lemma_batch_is_kept(
                ctx,
                k + 1,
                BatchState { next: st.next + 1, total: st.total + p.full_reward, pending: st.pending.push(p) },
                dues,
            );
        }
    }
}

proof fn lemma_sum_of_rewards_grows(dues: Seq<PendingDistribution>, m: int, n: int)
    requires
        0 <= m <= n,
    ensures
        0 <= sum_of(m, |j: int| dues[j].full_reward as int) <= sum_of(n, |j: int| dues[j].full_reward as int),
    decreases n,
{
    if m < n {
        lemma_sum_of_rewards_grows(dues, m, n - 1);
    } else if m > 0 {
        lemma_sum_of_rewards_grows(dues, m - 1, n - 1);
    }
}

/// What is credited for the rewards that are kept, account by account.
proof fn lemma_kept_credits(
    slots: Seq<GatewaySlot>,
    from: int,
    accounts: Seq<GatewayAccount>,
    dues: Seq<PendingDistribution>,
    n: int,
    transfer: int,
    total: int,
)
    requires
        0 <= n <= dues.len() <= accounts.len(),
        forall|j: int|
            0 <= j < n && slots[from + j].address != Pubkey::zero() ==> (#[trigger] dues[j]).account == j,
    ensures
        ({
            let pending = kept(slots, from, dues, n);
            let after = after_credits(accounts, pending, transfer, total);
            &&& after.len() == accounts.len()
            &&& forall|j: int|
                n <= j < accounts.len() ==> #[trigger] after[j] == accounts[j]
            &&& forall|j: int|
                0 <= j < n ==> #[trigger] after[j] == if slots[from + j].address == Pubkey::zero() {
                    accounts[j]
                } else {
                    GatewayAccount {
                        gateway: Some(
                            credited(accounts[j].gateway->Some_0, dues[j], scaled(dues[j], transfer, total)),
                        ),
                        ..accounts[j]
                    }
                }
            &&& operator_total(accounts, pending, transfer, total) == sum_of(
                n,
                |j: int|
                    if slots[from + j].address == Pubkey::zero() {
                        0
                    } else {
                        operator_credit(
                            accounts[j].gateway->Some_0,
                            dues[j],
                            scaled(dues[j], transfer, total),
                        )
                    },
            )
            &&& orphaned_total(accounts, pending, transfer, total) == sum_of(
                n,
                |j: int|
                    if slots[from + j].address == Pubkey::zero() {
                        0
                    } else {
                        orphaned_share(
                            accounts[j].gateway->Some_0,
                            dues[j],
                            scaled(dues[j], transfer, total),
                        )
                    },
            )
        }),
    decreases n,
{
    if n > 0 {
        lemma_kept_credits(slots, from, accounts, dues, n - 1, transfer, total);
        if slots[from + n - 1].address != Pubkey::zero() {
            let pending = kept(slots, from, dues, n);
            assert(pending.drop_last() =~= kept(slots, from, dues, n - 1));
            assert(pending.last() == dues[n - 1]);
        }
    }
}

/// A batch is paid once the epoch has ended, its observers were prescribed and its
/// rewards have not all gone out. It goes on with the gateway that the last batch
/// stopped before; the epoch is done once no gateway is left. Each account must be that
/// of the gateway whose turn it is.
pub proof fn batch_goes_on_where_the_last_stopped(
    ctx: DistributeEpoch,
    now: i64,
    r: Result<Outcome<DistributeEpoch, DistributionReport>, Refusal>,
)
    requires
        ctx.registry.wf(),
        ctx.epoch.active_gateway_count <= 3000,
        ctx.epoch.observer_count <= 50,
        ctx.epoch.distribution_index <= ctx.epoch.active_gateway_count,
        call_ensures(distribute_epoch, (ctx, now), r),
    ensures
        r matches Err(e) ==> match e {
            Refusal::Gar(GarError::InvalidParameter) => ctx.protocol_token_account
                != ctx.settings.protocol_token_account || ctx.stake_token_account != ctx.settings.stake_token_account,
            Refusal::Gar(GarError::PrescriptionsNotDone) => ctx.epoch.prescriptions_done == 0,
            Refusal::Gar(GarError::EpochInProgress) => now < ctx.epoch.end_timestamp,
            Refusal::Gar(GarError::RewardsAlreadyDistributed) => ctx.epoch.rewards_distributed != 0,
            _ => now >= ctx.epoch.end_timestamp && ctx.epoch.prescriptions_done != 0 && ctx.epoch.rewards_distributed
                == 0,
        },
        r matches Ok(o) ==> {
            let (e, e2) = (ctx.epoch, o.accounts.epoch);
            &&& ctx.protocol_token_account == ctx.settings.protocol_token_account
            &&& ctx.stake_token_account == ctx.settings.stake_token_account
            &&& e.prescriptions_done != 0
            &&& now >= e.end_timestamp
            &&& e.rewards_distributed == 0
            &&& e2 == (Epoch {
                distribution_index: e2.distribution_index,
                rewards_distributed: e2.rewards_distributed,
                ..e
            })
            &&& e.distribution_index + ctx.accounts@.len() <= e.active_gateway_count ==> e2.distribution_index
                == e.distribution_index + ctx.accounts@.len()
            &&& e.distribution_index + ctx.accounts@.len() >= e.active_gateway_count ==> e2.distribution_index
                == e.active_gateway_count
            &&& e2.distribution_index == e.active_gateway_count ==> e2.rewards_distributed == 1
            &&& e2.distribution_index < e.active_gateway_count ==> e2.rewards_distributed == 0
            &&& o.event.event is Some <==> e2.distribution_index == e.active_gateway_count
            &&& o.event.event matches Some(event) ==> event.epoch_index == e.epoch_index && event.gateways_processed
                == e.active_gateway_count && event.total_eligible_rewards == e.total_eligible_rewards
                && event.timestamp == now
            &&& o.accounts.registry == ctx.registry
            &&& o.accounts.epoch_settings == ctx.epoch_settings
            &&& o.accounts.settings == (GatewaySettings {
                total_staked: o.accounts.settings.total_staked,
                ..ctx.settings
            })
        },
{
    if r is Ok {
        lemma_batch_progress(
            ctx,
            0,
            BatchState { next: ctx.epoch.distribution_index as int, total: 0, pending: Seq::empty() },
        );
    } else if distribution_refusal(ctx, now) is None {
        lemma_batch_errors(
            ctx,
            0,
            BatchState { next: ctx.epoch.distribution_index as int, total: 0, pending: Seq::empty() },
        );
    }
}

proof fn lemma_batch_errors(ctx: DistributeEpoch, k: int, st: BatchState)
    requires
        0 <= k <= ctx.accounts@.len(),
    ensures
        assess_from(ctx, k, st) matches Err(e) ==> match e {
            Refusal::Gar(g) => g == GarError::InvalidGatewayAccount || g == GarError::WeightsNotTallied || g
                == GarError::ArithmeticOverflow,
            Refusal::NoProgramAddress => true,
            Refusal::WrongAccountType => false,
        },
    decreases ctx.accounts@.len() - k,
{
    if k >= ctx.accounts@.len() || st.next >= ctx.epoch.active_gateway_count {
    } else if slots_in(ctx.registry, ctx.epoch)[st.next].address == Pubkey::zero() {
        lemma_batch_errors(ctx, k + 1, BatchState { next: st.next + 1, ..st });
    } else if assess_account(ctx, k, st.next) is Ok {
        let p = assess_account(ctx, k, st.next)->Ok_0;
        lemma_batch_errors(
            ctx,
            k + 1,
            BatchState { next: st.next + 1, total: st.total + p.full_reward, pending: st.pending.push(p) },
        );
    }
}

proof fn lemma_batch_accounts(ctx: DistributeEpoch, k: int, st: BatchState, j: int)
    requires
        0 <= k <= j < ctx.accounts@.len(),
        st.next + (j - k) < ctx.epoch.active_gateway_count,
        slots_in(ctx.registry, ctx.epoch)[st.next + (j - k)].address != Pubkey::zero(),
        assess_from(ctx, k, st) is Ok,
    ensures
        assess_account(ctx, j, st.next + (j - k)) is Ok,
    decreases ctx.accounts@.len() - k,
{
    if k == j {
    } else if slots_in(ctx.registry, ctx.epoch)[st.next].address == Pubkey::zero() {
        lemma_batch_accounts(ctx, k + 1, BatchState { next: st.next + 1, ..st }, j);
    } else {
        let p = assess_account(ctx, k, st.next)->Ok_0;
        lemma_batch_accounts(
            ctx,
            k + 1,
            BatchState { next: st.next + 1, total: st.total + p.full_reward, pending: st.pending.push(p) },
            j,
        );
    }
}

/// An account in a batch that is paid belongs to the program, can be written, and lies at
/// the address of the gateway whose slot has its turn, which was tallied for the epoch or is
/// leaving; only the account of a cleared slot may be any.
pub proof fn every_account_is_the_gateways_whose_turn_it_is(
    ctx: DistributeEpoch,
    now: i64,
    slots: Vec<GatewaySlot>,
    k: int,
    o: Outcome<DistributeEpoch, DistributionReport>,
)
    requires
        ctx.registry.wf(),
        ctx.epoch.active_gateway_count <= 3000,
        ctx.epoch.observer_count <= 50,
        call_ensures(gateway_slots, (&ctx.registry, &ctx.epoch), slots),
        call_ensures(distribute_epoch, (ctx, now), Ok::<_, Refusal>(o)),
        0 <= k < ctx.accounts@.len(),
        ctx.epoch.distribution_index + k < ctx.epoch.active_gateway_count,
        slots@[ctx.epoch.distribution_index + k].address != Pubkey::zero(),
    ensures
        ({
            let account = ctx.accounts@[k];
            let slot = slots@[ctx.epoch.distribution_index + k];
            &&& account.owned && account.writable
            &&& account.gateway matches Some(g) && {
                &&& g.operator == slot.address
                &&& gateway_pda(g.operator, ctx.program_id) matches Some((address, _)) && account.key == address
                &&& g.status == GatewayStatus::Leaving || g.weights.weights_epoch == ctx.epoch.epoch_index
            }
        }),
{
    lemma_batch_accounts(
        ctx,
        0,
        BatchState { next: ctx.epoch.distribution_index as int, total: 0, pending: Seq::empty() },
        k,
    );
}

/// Every gateway of a batch is credited its part of what the treasury can pay: all that is
/// due where it holds as much, and otherwise the same part of each reward. The total of the
/// stakes rises by what the operators are credited; what the delegates have lost is not
/// transferred; the call that moves the tokens names the amount that is.
pub proof fn batch_pays_every_gateway_its_part(
    ctx: DistributeEpoch,
    now: i64,
    slots: Vec<GatewaySlot>,
    dues: Seq<PendingDistribution>,
    parts: Seq<u64>,
    splits: Seq<(u64, u64)>,
    can_pay: int,
    gateway: &mut Gateway,
    k: int,
    credit: (u64, u64),
    release: Vec<u8>,
    r: Result<Outcome<DistributeEpoch, DistributionReport>, Refusal>,
)
    requires
        ctx.registry.wf(),
        ctx.epoch.active_gateway_count <= 3000,
        ctx.epoch.observer_count <= 50,
        call_ensures(gateway_slots, (&ctx.registry, &ctx.epoch), slots),
        call_ensures(distribute_epoch, (ctx, now), r),
        // One reward is due for each account, as far as the epoch has gateways.
        dues.len() <= ctx.accounts@.len(),
        ctx.epoch.distribution_index + dues.len() <= ctx.epoch.active_gateway_count,
        dues.len() == ctx.accounts@.len() || ctx.epoch.distribution_index + dues.len()
            == ctx.epoch.active_gateway_count,
        parts.len() == dues.len(),
        splits.len() == dues.len(),
        // The treasury pays what is due, or all that it holds.
        can_pay <= ctx.protocol_balance,
        can_pay <= sum_of(dues.len() as int, |j: int| dues[j].full_reward as int),
        can_pay == ctx.protocol_balance || can_pay == sum_of(
            dues.len() as int,
            |j: int| dues[j].full_reward as int,
        ),
        forall|j: int|
            0 <= j < dues.len() ==> if slots@[ctx.epoch.distribution_index + j].address == Pubkey::zero() {
                (#[trigger] dues[j]).full_reward == 0 && splits[j] == (0u64, 0u64)
            } else {
                let account = ctx.accounts@[j];
                let g = account.gateway->Some_0;
                let at = ctx.epoch.distribution_index + j;
                &&& account.owned && account.writable && account.gateway is Some
                &&& gateway_pda(g.operator, ctx.program_id) is Some
                &&& call_ensures(
                    assess_gateway,
                    (
                        j as usize,
                        &account.key,
                        &gateway_pda(g.operator, ctx.program_id)->Some_0.0,
                        &g,
                        &slots@[at],
                        at as usize,
                        &ctx.epoch,
                        ctx.epoch_settings.missed_observation_penalty_rate,
                    ),
                    Ok::<_, GarError>(dues[j]),
                )
                &&& sum_of(dues.len() as int, |j: int| dues[j].full_reward as int) > 0 ==> is_part(
                    parts[j] as int,
                    dues[j].full_reward as int,
                    can_pay,
                    sum_of(dues.len() as int, |j: int| dues[j].full_reward as int),
                )
                &&& sum_of(dues.len() as int, |j: int| dues[j].full_reward as int) == 0 ==> parts[j] == 0
                &&& call_ensures(
                    split_scaled_reward,
                    (parts[j], g.settings.delegate_reward_share_ratio, dues[j].had_delegation_at_tally),
                    splits[j],
                )
            },
        // One of the gateways, credited its part.
        0 <= k < dues.len(),
        slots@[ctx.epoch.distribution_index + k].address != Pubkey::zero(),
        ctx.accounts@[k].gateway == Some(*old(gateway)),
        call_ensures(credit_gateway, (gateway, &dues[k], parts[k]), credit),
        r matches Ok(o) ==> (o.transfers@.len() > 0 ==> call_ensures(
            release_treasury_data,
            (o.transfers@[0].amount,),
            release,
        )),
    ensures
        // Nothing but the sums can stand in its way.
        r is Err && ctx.protocol_token_account == ctx.settings.protocol_token_account && ctx.stake_token_account
            == ctx.settings.stake_token_account && ctx.epoch.prescriptions_done != 0 && now >= ctx.epoch.end_timestamp
            && ctx.epoch.rewards_distributed == 0 ==> {
            ||| sum_of(dues.len() as int, |j: int| dues[j].full_reward as int) > u64::MAX
            ||| ctx.settings.total_staked + can_pay > u64::MAX
        },
        r matches Ok(o) ==> {
            let moved = if o.transfers@.len() > 0 {
                o.transfers@[0].amount as int
            } else {
                0
            };
            &&& o.accounts.accounts@.len() == ctx.accounts@.len()
            &&& o.accounts.accounts@[k] == (GatewayAccount { gateway: Some(*final(gateway)), ..ctx.accounts@[k] })
            &&& forall|j: int|
                0 <= j < ctx.accounts@.len() && (j >= dues.len() || slots@[ctx.epoch.distribution_index + j].address
                    == Pubkey::zero()) ==> #[trigger] o.accounts.accounts@[j] == ctx.accounts@[j]
            &&& o.accounts.settings.total_staked == ctx.settings.total_staked + sum_of(
                dues.len() as int,
                |j: int|
                    if ctx.accounts@[j].gateway is Some && ctx.accounts@[j].gateway->Some_0.status
                        == GatewayStatus::Joined {
                        splits[j].0 as int
                    } else {
                        0
                    },
            )
            &&& sum_of(
                dues.len() as int,
                |j: int|
                    if ctx.accounts@[j].gateway is Some && ctx.accounts@[j].gateway->Some_0.total_delegated_stake
                        == 0 {
                        splits[j].1 as int
                    } else {
                        0
                    },
            ) <= can_pay ==> moved + sum_of(
                dues.len() as int,
                |j: int|
                    if ctx.accounts@[j].gateway is Some && ctx.accounts@[j].gateway->Some_0.total_delegated_stake
                        == 0 {
                        splits[j].1 as int
                    } else {
                        0
                    },
            ) == can_pay
            &&& moved <= can_pay
            &&& moved > 0 ==> o.transfers@.len() == 1 && o.transfers@[0].from == Holder::Treasury
                && o.transfers@[0].to == Holder::StakePool && o.event.release_data@ == release@
            &&& moved == 0 ==> o.transfers@.len() == 0 && o.event.release_data@.len() == 0
        },
{
    let n: int = dues.len() as int;
    let from: int = ctx.epoch.distribution_index as int;
    let total: int = sum_of(n, |j: int| dues[j].full_reward as int);
    let start = BatchState { next: from, total: 0, pending: Seq::empty() };
    let pending = kept(slots@, from, dues, n);
    lemma_sum_of_rewards_grows(dues, 0, n);
    assert forall|j: int| 0 <= j < n && slots@[from + j].address != Pubkey::zero() implies (
    #[trigger] dues[j]).account == j && assess_account(ctx, j, from + j) == Ok::<_, Refusal>(dues[j]) && parts[j]
        == scaled(dues[j], can_pay, total) by {
        lemma_scaled(dues[j], can_pay, total);
        if total > 0 {
            lemma_quotient_is_part(dues[j].full_reward as int, can_pay, total);
            lemma_part_is_unique(
                parts[j] as int,
                scaled(dues[j], can_pay, total) as int,
                dues[j].full_reward as int,
                can_pay,
                total,
            );
        }
    }
    lemma_batch_is_kept(ctx, 0, start, dues);
    lemma_kept_credits(slots@, from, ctx.accounts@, dues, n, can_pay, total);
    let operators = |j: int|
        if slots@[from + j].address == Pubkey::zero() {
            0
        } else {
            operator_credit(ctx.accounts@[j].gateway->Some_0, dues[j], scaled(dues[j], can_pay, total))
        };
    let orphans = |j: int|
        if slots@[from + j].address == Pubkey::zero() {
            0
        } else {
            orphaned_share(ctx.accounts@[j].gateway->Some_0, dues[j], scaled(dues[j], can_pay, total))
        };
    let joined = |j: int|
        if ctx.accounts@[j].gateway is Some && ctx.accounts@[j].gateway->Some_0.status == GatewayStatus::Joined {
            splits[j].0 as int
        } else {
            0
        };
    let deserted = |j: int|
        if ctx.accounts@[j].gateway is Some && ctx.accounts@[j].gateway->Some_0.total_delegated_stake == 0 {
            splits[j].1 as int
        } else {
            0
        };
    assert forall|j: int| 0 <= j < n implies #[trigger] operators(j) == joined(j) by {
        assert(dues[j].full_reward >= 0);
    }
    assert forall|j: int| 0 <= j < n implies #[trigger] orphans(j) == deserted(j) by {
        assert(dues[j].full_reward >= 0);
    }
    lemma_sum_of_equal_terms(n, operators, joined);
    lemma_sum_of_equal_terms(n, orphans, deserted);
    if assess_from(ctx, 0, start) is Ok {
        lemma_assessed_batch(ctx, 0, start);
        lemma_operator_total_bounded(ctx.accounts@, pending, can_pay, total);
        assert(pending.take(pending.len() as int) =~= pending);
        lemma_scaled_total_fits(pending, pending.len() as int, can_pay, total);
    }
}

/// The call that releases tokens from the treasury starts with the first eight bytes of the
/// digest of `global:release_treasury_to_recipient`, and names the amount after it, least
/// byte first.
pub proof fn release_names_the_amount(amount: u64, name: Seq<u8>, digits: Seq<u8>, r: Vec<u8>)
    requires
        call_ensures(release_treasury_data, (amount,), r),
        name.len() == "global:release_treasury_to_recipient"@.len(),
        forall|i: int|
            0 <= i < name.len() ==> #[trigger] name[i] as int == "global:release_treasury_to_recipient"@[i] as int,
        digits.len() == 8,
        le_value(digits) == amount,
    ensures
        r@ == sha256(name).take(8) + digits,
{
    reveal_strlit("global:release_treasury_to_recipient");
    assert(name =~= RELEASE_TREASURY_NAME@);
    lemma_le_bytes_inverse(digits, amount);
}

} // verus!
