//! Claiming a withdrawal once its lock is over, expediting it for a penalty, or
//! cancelling it.

use vstd::prelude::*;
use crate::arith::{
    falls_by, is_part, lemma_quotient_is_part, lemma_share_bounded, lesser, low64, minus_or_zero, mul_wide,
    saturating_sub_i64, truncate_u128,
};
use crate::error::GarError;
use crate::events::{InstantWithdrawalEvent, WithdrawalCancelledEvent, WithdrawalClaimedEvent};
use crate::instructions::delegate::{decrease_refusal, decreased, DecreaseDelegateStake};
use crate::instructions::effects::{one_transfer, transfer, Holder, Outcome, TokenTransfer};
use crate::instructions::funding_plan::withdrawal_draw_refusal;
use crate::instructions::operator_stake::{decrease_operator_refusal, operator_decreased, DecreaseOperatorStake};
use crate::instructions::payment::{withdrawal_payment_refusal, DeductWithdrawalForPayment};
use crate::pubkey::Pubkey;
use crate::state::accounts::{Delegation, Gateway, GatewaySettings, GatewayStatus, Withdrawal};
use crate::state::constants::RATE_SCALE;
use crate::state::rewards::{
    gains, lemma_settled_gains, settle_delegate_rewards, settled_delegation, settled_gateway, settled_stake,
};

verus! {

/// The accounts of `claim_withdrawal`. The withdrawal's account is closed.
#[derive(Clone, Copy, Debug)]
pub struct ClaimWithdrawal {
    pub settings: GatewaySettings,
    pub withdrawal: Withdrawal,
    pub stake_token_account: Pubkey,
    pub owner: Pubkey,
}

/// Why a withdrawal cannot be claimed, if so.
pub open spec fn claim_refusal(ctx: ClaimWithdrawal, now: i64) -> Option<GarError> {
    if ctx.withdrawal.owner != ctx.owner {
        Some(GarError::InvalidOwner)
    } else if ctx.stake_token_account != ctx.settings.stake_token_account {
        Some(GarError::InvalidParameter)
    } else if now < ctx.withdrawal.available_at {
        Some(GarError::WithdrawalNotReady)
    } else {
        None
    }
}

/// The settings once `amount` has left the withdrawals for good.
pub open spec fn paid_from_withdrawals(settings: GatewaySettings, amount: u64) -> GatewaySettings {
    GatewaySettings {
        total_withdrawn: minus_or_zero(settings.total_withdrawn as int, amount as int) as u64,
        ..settings
    }
}

/// Pays out a withdrawal whose lock is over.
pub fn claim_withdrawal(ctx: ClaimWithdrawal, now: i64) -> (r: Result<
    Outcome<ClaimWithdrawal, WithdrawalClaimedEvent>,
    GarError,
>)
    ensures
        match r {
            Err(e) => claim_refusal(ctx, now) == Some(e),
            Ok(o) => {
                let w = ctx.withdrawal;
                &&& claim_refusal(ctx, now) is None
                &&& o.accounts == (ClaimWithdrawal {
                    settings: paid_from_withdrawals(ctx.settings, w.amount),
                    ..ctx
                })
                &&& o.transfers@ == seq![transfer(Holder::StakePool, Holder::Wallet, w.amount as int)]
                &&& o.event == (WithdrawalClaimedEvent {
                    owner: w.owner,
                    withdrawal_id: w.withdrawal_id,
                    amount: w.amount,
                    timestamp: now,
                })
            },
        },
{
    let mut ctx = ctx;
    if ctx.withdrawal.owner != ctx.owner {
        return Err(GarError::InvalidOwner);
    }
    if ctx.stake_token_account != ctx.settings.stake_token_account {
        return Err(GarError::InvalidParameter);
    }
    if now < ctx.withdrawal.available_at {
        return Err(GarError::WithdrawalNotReady);
    }
    let amount: u64 = ctx.withdrawal.amount;
    let event = WithdrawalClaimedEvent {
        owner: ctx.withdrawal.owner,
        withdrawal_id: ctx.withdrawal.withdrawal_id,
        amount,
        timestamp: now,
    };
    ctx.settings.total_withdrawn = ctx.settings.total_withdrawn.saturating_sub(amount);
    Ok(Outcome { accounts: ctx, transfers: one_transfer(Holder::StakePool, Holder::Wallet, amount), event })
}

/// How long a withdrawal has been open.
pub open spec fn elapsed_since(created_at: i64, now: i64) -> int {
    lesser(minus_or_zero(now as int, created_at as int), i64::MAX as int)
}

/// The penalty rate `elapsed` seconds into a period: it falls linearly from the
/// largest rate to the smallest, which it is from the end of the period on.
pub open spec fn penalty_rate(max_penalty: u64, min_penalty: u64, total_period: i64, elapsed: int) -> int {
    if elapsed >= total_period {
        min_penalty as int
    } else if max_penalty <= min_penalty {
        max_penalty as int
    } else {
        max_penalty - (max_penalty - min_penalty) * elapsed / total_period as int
    }
}

/// The penalty rate of a withdrawal that was opened at `created_at`.
pub fn compute_penalty_rate(
    max_penalty: u64,
    min_penalty: u64,
    total_period: i64,
    created_at: i64,
    now: i64,
) -> (r: u64)
    ensures
        r == penalty_rate(max_penalty, min_penalty, total_period, elapsed_since(created_at, now)),
{
    let since: i64 = saturating_sub_i64(now, created_at);
    let elapsed: i64 = if since > 0 {
        since
    } else {
        0
    };
    if total_period == 0 || elapsed >= total_period {
        min_penalty
    } else {
        let range: u64 = max_penalty.saturating_sub(min_penalty);
        proof {
            lemma_share_bounded(elapsed as int, range as int, total_period as int);
            if range == 0 {
                assert(0 * elapsed == 0);
                let p: int = total_period as int;
                assert(0int / p == 0) by (nonlinear_arith)
                    requires
                        p > 0,
                ;
            }
        }
        let decay: u64 = (mul_wide(range, elapsed as u64) / (total_period as u128)) as u64;
        let rate_after_decay: u64 = max_penalty.saturating_sub(decay);
        let at_least_min: u64 = if rate_after_decay >= min_penalty {
            rate_after_decay
        } else {
            min_penalty
        };
        if at_least_min <= max_penalty {
            at_least_min
        } else {
            max_penalty
        }
    }
}

/// The penalty rate lies between its two ends.
pub proof fn penalty_rate_bounded(max_penalty: u64, min_penalty: u64, total_period: i64, elapsed: int)
    requires
        min_penalty <= max_penalty,
        0 <= elapsed,
    ensures
        min_penalty <= penalty_rate(max_penalty, min_penalty, total_period, elapsed) <= max_penalty,
{
    if elapsed < total_period {
        lemma_share_bounded(elapsed, max_penalty - min_penalty, total_period as int);
    }
}

/// Waiting longer never raises the penalty rate.
pub proof fn penalty_rate_never_rises(max_penalty: u64, min_penalty: u64, total_period: i64, sooner: int, later: int)
    requires
        min_penalty <= max_penalty,
        0 <= sooner <= later,
    ensures
        penalty_rate(max_penalty, min_penalty, total_period, later) <= penalty_rate(
            max_penalty,
            min_penalty,
            total_period,
            sooner,
        ),
{
    penalty_rate_bounded(max_penalty, min_penalty, total_period, sooner);
    penalty_rate_bounded(max_penalty, min_penalty, total_period, later);
    if later < total_period && min_penalty < max_penalty {
        let range: int = max_penalty - min_penalty;
        assert(range * sooner <= range * later) by (nonlinear_arith)
            requires
                sooner <= later,
                range >= 0,
        ;
        vstd::arithmetic::div_mod::lemma_div_is_ordered(range * sooner, range * later, total_period as int);
    }
}

/// The penalty on a withdrawal of `amount`.
pub open spec fn penalty_fee(amount: u64, rate: int) -> int {
    low64(amount * rate / RATE_SCALE as int)
}

/// Fee and payout make up the amount, as long as the rate is at most the whole.
pub proof fn fee_and_payout_make_up_amount(amount: u64, rate: int)
    requires
        0 <= rate <= RATE_SCALE,
    ensures
        0 <= penalty_fee(amount, rate) <= amount,
        penalty_fee(amount, rate) + minus_or_zero(amount as int, penalty_fee(amount, rate)) == amount,
{
    lemma_share_bounded(rate, amount as int, RATE_SCALE as int);
}

/// The accounts of `instant_withdrawal`. The withdrawal's account is closed.
#[derive(Clone, Copy, Debug)]
pub struct InstantWithdrawal {
    pub settings: GatewaySettings,
    pub withdrawal: Withdrawal,
    pub stake_token_account: Pubkey,
    pub protocol_token_account: Pubkey,
    pub owner: Pubkey,
}

/// Why a withdrawal cannot be expedited, if so.
pub open spec fn instant_refusal(ctx: InstantWithdrawal) -> Option<GarError> {
    if ctx.withdrawal.owner != ctx.owner {
        Some(GarError::InvalidOwner)
    } else if ctx.stake_token_account != ctx.settings.stake_token_account {
        Some(GarError::InvalidParameter)
    } else if ctx.protocol_token_account != ctx.settings.protocol_token_account {
        Some(GarError::InvalidParameter)
    } else if ctx.withdrawal.is_protected {
        Some(GarError::ProtectedVault)
    } else if ctx.withdrawal.amount < ctx.settings.min_expedited_withdrawal_amount {
        Some(GarError::InvalidWithdrawalAmount)
    } else {
        None
    }
}

/// The penalty on expediting a withdrawal now.
pub open spec fn instant_fee(ctx: InstantWithdrawal, now: i64) -> int {
    penalty_fee(
        ctx.withdrawal.amount,
        penalty_rate(
            ctx.settings.max_expedited_withdrawal_penalty,
            ctx.settings.min_expedited_withdrawal_penalty,
            ctx.settings.withdrawal_period,
            elapsed_since(ctx.withdrawal.created_at, now),
        ),
    )
}

/// Pays out a withdrawal at once, less a penalty that falls with the time that it
/// has been open. The protected vault of a gateway that left cannot be expedited.
pub fn instant_withdrawal(ctx: InstantWithdrawal, now: i64) -> (r: Result<
    Outcome<InstantWithdrawal, InstantWithdrawalEvent>,
    GarError,
>)
    ensures
        match r {
            Err(e) => instant_refusal(ctx) == Some(e),
            Ok(o) => {
                let w = ctx.withdrawal;
                let fee = instant_fee(ctx, now);
                let payout = minus_or_zero(w.amount as int, fee);
                &&& instant_refusal(ctx) is None
                &&& o.accounts == (InstantWithdrawal {
                    settings: paid_from_withdrawals(ctx.settings, w.amount),
                    ..ctx
                })
                &&& o.transfers@ == seq![
                    transfer(Holder::StakePool, Holder::Wallet, payout),
                    transfer(Holder::StakePool, Holder::Treasury, fee),
                ]
                &&& o.event == (InstantWithdrawalEvent {
                    owner: w.owner,
                    withdrawal_id: w.withdrawal_id,
                    amount: w.amount,
                    fee: fee as u64,
                    payout: payout as u64,
                    timestamp: now,
                })
            },
        },
{
    let mut ctx = ctx;
    if ctx.withdrawal.owner != ctx.owner {
        return Err(GarError::InvalidOwner);
    }
    if ctx.stake_token_account != ctx.settings.stake_token_account {
        return Err(GarError::InvalidParameter);
    }
    if ctx.protocol_token_account != ctx.settings.protocol_token_account {
        return Err(GarError::InvalidParameter);
    }
    if ctx.withdrawal.is_protected {
        return Err(GarError::ProtectedVault);
    }
    let amount: u64 = ctx.withdrawal.amount;
    if amount < ctx.settings.min_expedited_withdrawal_amount {
        return Err(GarError::InvalidWithdrawalAmount);
    }
    let rate: u64 = compute_penalty_rate(
        ctx.settings.max_expedited_withdrawal_penalty,
        ctx.settings.min_expedited_withdrawal_penalty,
        ctx.settings.withdrawal_period,
        ctx.withdrawal.created_at,
        now,
    );
    let fee: u64 = truncate_u128(mul_wide(amount, rate) / RATE_SCALE as u128);
    let payout: u64 = amount.saturating_sub(fee);
    let event = InstantWithdrawalEvent {
        owner: ctx.withdrawal.owner,
        withdrawal_id: ctx.withdrawal.withdrawal_id,
        amount,
        fee,
        payout,
        timestamp: now,
    };
    ctx.settings.total_withdrawn = ctx.settings.total_withdrawn.saturating_sub(amount);
    let mut transfers: Vec<TokenTransfer> = one_transfer(Holder::StakePool, Holder::Wallet, payout);
    transfers.push(TokenTransfer { from: Holder::StakePool, to: Holder::Treasury, amount: fee });
    Ok(Outcome { accounts: ctx, transfers, event })
}

/// The accounts of `close_drained_withdrawal`. The withdrawal's account is closed
/// and its rent returned to the owner.
#[derive(Clone, Copy, Debug)]
pub struct CloseDrainedWithdrawal {
    pub withdrawal: Withdrawal,
}

/// Closes a withdrawal that holds nothing. Anyone may do so.
pub fn close_drained_withdrawal(ctx: CloseDrainedWithdrawal) -> (r: Result<CloseDrainedWithdrawal, GarError>)
    ensures
        match r {
            Err(e) => ctx.withdrawal.amount != 0 && e == GarError::WithdrawalNotDrained,
            Ok(after) => ctx.withdrawal.amount == 0 && after == ctx,
        },
{
    if ctx.withdrawal.amount != 0 {
        return Err(GarError::WithdrawalNotDrained);
    }
    Ok(ctx)
}

/// The accounts of `cancel_withdrawal`. The withdrawal's account is closed.
#[derive(Clone, Debug)]
pub struct CancelWithdrawal {
    pub settings: GatewaySettings,
    pub gateway: Gateway,
    pub withdrawal: Withdrawal,
    /// The delegation that the stake came from, if it was passed.
    pub delegation: Option<Delegation>,
    pub owner: Pubkey,
}

/// Why a withdrawal cannot be cancelled, if so.
pub open spec fn cancel_refusal(ctx: CancelWithdrawal) -> Option<GarError> {
    let amount = ctx.withdrawal.amount;
    if ctx.withdrawal.owner != ctx.owner {
        Some(GarError::InvalidOwner)
    } else if ctx.withdrawal.gateway != ctx.gateway.operator {
        Some(GarError::InvalidParameter)
    } else if ctx.gateway.status != GatewayStatus::Joined {
        Some(GarError::GatewayLeaving)
    } else if ctx.withdrawal.is_delegate {
        match ctx.delegation {
            None => Some(GarError::DelegationNotFound),
            Some(delegation) => if !ctx.gateway.settings.allow_delegated_staking {
                Some(GarError::DelegationNotAllowed)
            } else if settled_delegation(ctx.gateway.cumulative_reward_per_token, delegation).amount + amount
                > u64::MAX || settled_stake(ctx.gateway, delegation) + amount > u64::MAX
                || ctx.settings.total_delegated + amount > u64::MAX {
                Some(GarError::ArithmeticOverflow)
            } else {
                None
            },
        }
    } else if ctx.gateway.operator_stake + amount > u64::MAX || ctx.settings.total_staked + amount > u64::MAX {
        Some(GarError::ArithmeticOverflow)
    } else {
        None
    }
}

/// The accounts once a withdrawal has been cancelled: the stake is back where it
/// came from.
pub open spec fn cancelled(ctx: CancelWithdrawal) -> CancelWithdrawal {
    let amount = ctx.withdrawal.amount;
    if ctx.withdrawal.is_delegate {
        let delegation = ctx.delegation->Some_0;
        let g = settled_gateway(ctx.gateway, delegation);
        let d = settled_delegation(ctx.gateway.cumulative_reward_per_token, delegation);
        CancelWithdrawal {
            settings: GatewaySettings {
                total_withdrawn: minus_or_zero(ctx.settings.total_withdrawn as int, amount as int) as u64,
                total_delegated: (ctx.settings.total_delegated + amount) as u64,
                ..ctx.settings
            },
            gateway: Gateway {
                total_delegated_stake: (g.total_delegated_stake + amount) as u64,
                ..g
            },
            delegation: Some(Delegation { amount: (d.amount + amount) as u64, ..d }),
            ..ctx
        }
    } else {
        CancelWithdrawal {
            settings: GatewaySettings {
                total_withdrawn: minus_or_zero(ctx.settings.total_withdrawn as int, amount as int) as u64,
                total_staked: (ctx.settings.total_staked + amount) as u64,
                ..ctx.settings
            },
            gateway: Gateway {
                operator_stake: (ctx.gateway.operator_stake + amount) as u64,
                ..ctx.gateway
            },
            ..ctx
        }
    }
}

/// Cancels a withdrawal: the stake returns to the delegation or to the operator's
/// stake. It earns no rewards for the time in between.
pub fn cancel_withdrawal(ctx: CancelWithdrawal, now: i64) -> (r: Result<
    Outcome<CancelWithdrawal, WithdrawalCancelledEvent>,
    GarError,
>)
    ensures
        match r {
            Err(e) => cancel_refusal(ctx) == Some(e),
            Ok(o) => {
                &&& cancel_refusal(ctx) is None
                &&& o.accounts == cancelled(ctx)
                &&& o.transfers@.len() == 0
                &&& o.event == (WithdrawalCancelledEvent {
                    owner: ctx.withdrawal.owner,
                    gateway: ctx.gateway.operator,
                    withdrawal_id: ctx.withdrawal.withdrawal_id,
                    amount: ctx.withdrawal.amount,
                    is_delegate: ctx.withdrawal.is_delegate,
                    timestamp: now,
                })
            },
        },
{
    let mut ctx = ctx;
    if ctx.withdrawal.owner != ctx.owner {
        return Err(GarError::InvalidOwner);
    }
    if ctx.withdrawal.gateway != ctx.gateway.operator {
        return Err(GarError::InvalidParameter);
    }
    if ctx.gateway.status != GatewayStatus::Joined {
        return Err(GarError::GatewayLeaving);
    }
    let amount: u64 = ctx.withdrawal.amount;
    if ctx.withdrawal.is_delegate {
        let mut delegation = match ctx.delegation {
            None => {
                return Err(GarError::DelegationNotFound);
            },
            Some(delegation) => delegation,
        };
        if !ctx.gateway.settings.allow_delegated_staking {
            return Err(GarError::DelegationNotAllowed);
        }
        settle_delegate_rewards(&mut ctx.gateway, &mut delegation);
        delegation.amount = match delegation.amount.checked_add(amount) {
            None => {
                return Err(GarError::ArithmeticOverflow);
            },
            Some(sum) => sum,
        };
        delegation.reward_debt = ctx.gateway.cumulative_reward_per_token;
        ctx.delegation = Some(delegation);
        ctx.gateway.total_delegated_stake = match ctx.gateway.total_delegated_stake.checked_add(amount) {
            None => {
                return Err(GarError::ArithmeticOverflow);
            },
            Some(sum) => sum,
        };
    } else {
        ctx.gateway.operator_stake = match ctx.gateway.operator_stake.checked_add(amount) {
            None => {
                return Err(GarError::ArithmeticOverflow);
            },
            Some(sum) => sum,
        };
    }
    let event = WithdrawalCancelledEvent {
        owner: ctx.withdrawal.owner,
        gateway: ctx.gateway.operator,
        withdrawal_id: ctx.withdrawal.withdrawal_id,
        amount,
        is_delegate: ctx.withdrawal.is_delegate,
        timestamp: now,
    };
    ctx.settings.total_withdrawn = ctx.settings.total_withdrawn.saturating_sub(amount);
    if ctx.withdrawal.is_delegate {
        ctx.settings.total_delegated = match ctx.settings.total_delegated.checked_add(amount) {
            None => {
                return Err(GarError::ArithmeticOverflow);
            },
            Some(sum) => sum,
        };
    } else {
        ctx.settings.total_staked = match ctx.settings.total_staked.checked_add(amount) {
            None => {
                return Err(GarError::ArithmeticOverflow);
            },
            Some(sum) => sum,
        };
    }
    Ok(Outcome { accounts: ctx, transfers: Vec::new(), event })
}

/// Cancelling undoes an operator's withdrawal: the gateway and the supply counters
/// are as they were before, wherever the counter of staked tokens covered it.
pub proof fn cancelling_undoes_operator_decrease(ctx: DecreaseOperatorStake, amount: u64, now: i64)
    requires
        decrease_operator_refusal(ctx, amount, now) is None,
        ctx.gateway.status == GatewayStatus::Joined,
        amount <= ctx.settings.total_staked,
    ensures
        ({
            let after = operator_decreased(ctx, amount, now);
            let back = CancelWithdrawal {
                settings: after.settings,
                gateway: after.gateway,
                withdrawal: after.withdrawal,
                delegation: None,
                owner: ctx.operator,
            };
            &&& cancel_refusal(back) is None
            &&& cancelled(back).gateway == ctx.gateway
            &&& cancelled(back).settings == ctx.settings
        }),
{
}

/// Cancelling undoes a delegate's withdrawal: the delegation holds what it held
/// before, its rewards settled, and so does the gateway, wherever its stake and
/// the counter of delegated tokens covered it.
pub proof fn cancelling_undoes_delegate_decrease(ctx: DecreaseDelegateStake, amount: u64, now: i64)
    requires
        decrease_refusal(ctx, amount, now) is None,
        ctx.gateway.status == GatewayStatus::Joined,
        ctx.gateway.settings.allow_delegated_staking,
        amount <= settled_stake(ctx.gateway, ctx.delegation),
        amount <= ctx.settings.total_delegated,
    ensures
        ({
            let after = decreased(ctx, amount, now);
            let back = CancelWithdrawal {
                settings: after.settings,
                gateway: after.gateway,
                withdrawal: after.withdrawal,
                delegation: Some(after.delegation),
                owner: ctx.delegator,
            };
            &&& cancel_refusal(back) is None
            &&& cancelled(back).delegation == Some(
                settled_delegation(ctx.gateway.cumulative_reward_per_token, ctx.delegation),
            )
            &&& cancelled(back).gateway == settled_gateway(ctx.gateway, ctx.delegation)
            &&& cancelled(back).settings == ctx.settings
        }),
{
    crate::state::rewards::settling_only_adds(ctx.gateway, ctx.delegation);
    let after = decreased(ctx, amount, now);
    crate::state::rewards::new_delegation_has_nothing_pending(
        after.gateway.cumulative_reward_per_token,
        after.delegation,
    );
}

/// The protected vault of a gateway that left can be neither expedited nor spent,
/// whichever way.
pub proof fn protected_vault_cannot_be_spent(
    instant: InstantWithdrawal,
    payment: DeductWithdrawalForPayment,
    key: Pubkey,
    expected: Pubkey,
    withdrawal: Withdrawal,
    amount: u64,
)
    requires
        withdrawal.is_protected,
        instant.withdrawal == withdrawal,
        payment.withdrawal == withdrawal,
    ensures
        instant_refusal(instant) is Some,
        withdrawal_payment_refusal(payment, amount) is Some,
        withdrawal_draw_refusal(key, expected, withdrawal, amount) is Some,
{
}

/// A withdrawal is paid out in full, to its owner alone, and not before its lock is
/// over. What is paid leaves the counter of withdrawn tokens.
pub proof fn claim_pays_the_owner_in_full_once_unlocked(
    ctx: ClaimWithdrawal,
    now: i64,
    r: Result<Outcome<ClaimWithdrawal, WithdrawalClaimedEvent>, GarError>,
)
    requires
        call_ensures(claim_withdrawal, (ctx, now), r),
    ensures
        r is Ok <==> ctx.owner == ctx.withdrawal.owner && ctx.stake_token_account == ctx.settings.stake_token_account
            && ctx.withdrawal.available_at <= now,
        r matches Err(e) ==> match e {
            GarError::InvalidOwner => ctx.owner != ctx.withdrawal.owner,
            GarError::InvalidParameter => ctx.stake_token_account != ctx.settings.stake_token_account,
            GarError::WithdrawalNotReady => now < ctx.withdrawal.available_at,
            _ => false,
        },
        r matches Ok(o) ==> {
            let (s, s2) = (ctx.settings, o.accounts.settings);
            &&& o.accounts == (ClaimWithdrawal { settings: s2, ..ctx })
            &&& s2 == (GatewaySettings { total_withdrawn: s2.total_withdrawn, ..s })
            &&& falls_by(s.total_withdrawn, s2.total_withdrawn, ctx.withdrawal.amount as int)
            &&& o.transfers@ == seq![
                TokenTransfer { from: Holder::StakePool, to: Holder::Wallet, amount: ctx.withdrawal.amount },
            ]
            &&& o.event.owner == ctx.withdrawal.owner
            &&& o.event.withdrawal_id == ctx.withdrawal.withdrawal_id
            &&& o.event.amount == ctx.withdrawal.amount
            &&& o.event.timestamp == now
        },
{
}

/// The penalty rate falls evenly over the period, from the largest rate when the
/// withdrawal is opened to the smallest at the end, and stays there.
pub proof fn penalty_rate_falls_evenly(
    max_penalty: u64,
    min_penalty: u64,
    total_period: i64,
    created_at: i64,
    now: i64,
    r: u64,
)
    requires
        call_ensures(compute_penalty_rate, (max_penalty, min_penalty, total_period, created_at, now), r),
        min_penalty <= max_penalty,
    ensures
        min_penalty <= r <= max_penalty,
        total_period <= 0 ==> r == min_penalty,
        total_period > 0 && now <= created_at ==> r == max_penalty,
        total_period > 0 && now - created_at >= total_period ==> r == min_penalty,
        total_period > 0 && 0 <= now - created_at <= total_period ==> is_part(
            max_penalty - r,
            max_penalty - min_penalty,
            now - created_at,
            total_period as int,
        ),
{
    let elapsed: int = elapsed_since(created_at, now);
    let range: int = max_penalty - min_penalty;
    let p: int = total_period as int;
    penalty_rate_bounded(max_penalty, min_penalty, total_period, elapsed);
    if p > 0 {
        lemma_quotient_is_part(range, elapsed, p);
        assert(range * 0 == 0);
        assert(0int / p == 0) by (nonlinear_arith)
            requires
                p > 0,
        ;
        if range == 0 {
            assert(0 * elapsed == 0);
        }
        if elapsed == p {
            assert(range * p / p == range) by (nonlinear_arith)
                requires
                    p > 0,
            ;
        }
    }
}

/// Expediting pays the owner what is left after the penalty, and the penalty to the
/// treasury: the part of the amount that the penalty rate gives out of a million.
/// The two make up the amount. Neither a protected vault nor less than the smallest
/// amount can be expedited.
pub proof fn expediting_pays_out_less_the_penalty(
    ctx: InstantWithdrawal,
    now: i64,
    rate: u64,
    r: Result<Outcome<InstantWithdrawal, InstantWithdrawalEvent>, GarError>,
)
    requires
        call_ensures(
            compute_penalty_rate,
            (
                ctx.settings.max_expedited_withdrawal_penalty,
                ctx.settings.min_expedited_withdrawal_penalty,
                ctx.settings.withdrawal_period,
                ctx.withdrawal.created_at,
                now,
            ),
            rate,
        ),
        call_ensures(instant_withdrawal, (ctx, now), r),
        rate <= 1_000_000,
    ensures
        r is Ok <==> ctx.owner == ctx.withdrawal.owner && ctx.stake_token_account == ctx.settings.stake_token_account
            && ctx.protocol_token_account == ctx.settings.protocol_token_account && !ctx.withdrawal.is_protected
            && ctx.withdrawal.amount >= ctx.settings.min_expedited_withdrawal_amount,
        r matches Err(e) ==> match e {
            GarError::InvalidOwner => ctx.owner != ctx.withdrawal.owner,
            GarError::InvalidParameter => ctx.stake_token_account != ctx.settings.stake_token_account
                || ctx.protocol_token_account != ctx.settings.protocol_token_account,
            GarError::ProtectedVault => ctx.withdrawal.is_protected,
            GarError::InvalidWithdrawalAmount => ctx.withdrawal.amount
                < ctx.settings.min_expedited_withdrawal_amount,
            _ => false,
        },
        r matches Ok(o) ==> {
            let (s, s2) = (ctx.settings, o.accounts.settings);
            &&& is_part(o.event.fee as int, ctx.withdrawal.amount as int, rate as int, 1_000_000)
            &&& o.event.fee + o.event.payout == ctx.withdrawal.amount
            &&& o.transfers@ == seq![
                TokenTransfer { from: Holder::StakePool, to: Holder::Wallet, amount: o.event.payout },
                TokenTransfer { from: Holder::StakePool, to: Holder::Treasury, amount: o.event.fee },
            ]
            &&& o.accounts == (InstantWithdrawal { settings: s2, ..ctx })
            &&& s2 == (GatewaySettings { total_withdrawn: s2.total_withdrawn, ..s })
            &&& falls_by(s.total_withdrawn, s2.total_withdrawn, ctx.withdrawal.amount as int)
            &&& o.event.owner == ctx.withdrawal.owner
            &&& o.event.withdrawal_id == ctx.withdrawal.withdrawal_id
            &&& o.event.amount == ctx.withdrawal.amount
            &&& o.event.timestamp == now
        },
{
    let a: int = ctx.withdrawal.amount as int;
    lemma_quotient_is_part(a, rate as int, 1_000_000);
    lemma_share_bounded(rate as int, a, 1_000_000);
}

/// Only an emptied withdrawal can be closed.
pub proof fn only_a_drained_withdrawal_is_closed(
    ctx: CloseDrainedWithdrawal,
    r: Result<CloseDrainedWithdrawal, GarError>,
)
    requires
        call_ensures(close_drained_withdrawal, (ctx,), r),
    ensures
        ctx.withdrawal.amount == 0 ==> r == Ok::<CloseDrainedWithdrawal, GarError>(ctx),
        ctx.withdrawal.amount != 0 ==> r == Err::<CloseDrainedWithdrawal, GarError>(GarError::WithdrawalNotDrained),
{
}

/// Cancelling returns the stake to where it came from. An operator's stake goes back
/// to the operator stake, a delegate's to the delegation and to the gateway's
/// delegated stake, and the supply counters follow. No tokens move.
pub proof fn cancelling_returns_the_stake(
    ctx: CancelWithdrawal,
    now: i64,
    r: Result<Outcome<CancelWithdrawal, WithdrawalCancelledEvent>, GarError>,
)
    requires
        call_ensures(cancel_withdrawal, (ctx, now), r),
    ensures
        r is Ok ==> ctx.owner == ctx.withdrawal.owner && ctx.withdrawal.gateway == ctx.gateway.operator
            && ctx.gateway.status == GatewayStatus::Joined,
        r is Ok && ctx.withdrawal.is_delegate ==> ctx.gateway.settings.allow_delegated_staking && ctx.delegation is Some,
        r matches Err(e) ==> match e {
            GarError::InvalidOwner => ctx.owner != ctx.withdrawal.owner,
            GarError::InvalidParameter => ctx.withdrawal.gateway != ctx.gateway.operator,
            GarError::GatewayLeaving => ctx.gateway.status != GatewayStatus::Joined,
            GarError::DelegationNotFound => ctx.withdrawal.is_delegate && ctx.delegation is None,
            GarError::DelegationNotAllowed => ctx.withdrawal.is_delegate
                && !ctx.gateway.settings.allow_delegated_staking,
            GarError::ArithmeticOverflow => !ctx.withdrawal.is_delegate ==> ctx.gateway.operator_stake
                + ctx.withdrawal.amount > u64::MAX || ctx.settings.total_staked + ctx.withdrawal.amount > u64::MAX,
            _ => false,
        },
        r matches Ok(o) ==> {
            let amount = ctx.withdrawal.amount;
            let (s, s2) = (ctx.settings, o.accounts.settings);
            let (g, g2) = (ctx.gateway, o.accounts.gateway);
            &&& o.transfers@.len() == 0
            &&& falls_by(s.total_withdrawn, s2.total_withdrawn, amount as int)
            &&& o.accounts.withdrawal == ctx.withdrawal
            &&& o.accounts.owner == ctx.owner
            &&& o.event.owner == ctx.withdrawal.owner
            &&& o.event.gateway == g.operator
            &&& o.event.withdrawal_id == ctx.withdrawal.withdrawal_id
            &&& o.event.amount == amount
            &&& o.event.is_delegate == ctx.withdrawal.is_delegate
            &&& o.event.timestamp == now
            &&& !ctx.withdrawal.is_delegate ==> {
                &&& g2.operator_stake == g.operator_stake + amount
                &&& g2 == (Gateway { operator_stake: g2.operator_stake, ..g })
                &&& s2.total_staked == s.total_staked + amount
                &&& s2 == (GatewaySettings {
                    total_staked: s2.total_staked,
                    total_withdrawn: s2.total_withdrawn,
                    ..s
                })
                &&& o.accounts.delegation == ctx.delegation
            }
            &&& ctx.withdrawal.is_delegate ==> {
                let c = g.cumulative_reward_per_token;
                let d = ctx.delegation->Some_0;
                let d2 = o.accounts.delegation->Some_0;
                &&& o.accounts.delegation is Some
                &&& d2 == (Delegation { amount: d2.amount, reward_debt: c, ..d })
                &&& d2.amount - amount >= d.amount
                &&& d2.amount - amount < u64::MAX ==> gains(d.amount, d.reward_debt, c, d2.amount - amount - d.amount)
                &&& g2 == (Gateway { total_delegated_stake: g2.total_delegated_stake, ..g })
                &&& g2.total_delegated_stake - amount < u64::MAX ==> gains(
                    d.amount,
                    d.reward_debt,
                    c,
                    g2.total_delegated_stake - amount - g.total_delegated_stake,
                )
                &&& s2.total_delegated == s.total_delegated + amount
                &&& s2 == (GatewaySettings {
                    total_delegated: s2.total_delegated,
                    total_withdrawn: s2.total_withdrawn,
                    ..s
                })
            }
        },
        ctx.owner == ctx.withdrawal.owner && ctx.withdrawal.gateway == ctx.gateway.operator && ctx.gateway.status
            == GatewayStatus::Joined && !ctx.withdrawal.is_delegate && ctx.gateway.operator_stake
            + ctx.withdrawal.amount <= u64::MAX && ctx.settings.total_staked + ctx.withdrawal.amount <= u64::MAX
            ==> r is Ok,
{
    if ctx.delegation is Some {
        lemma_settled_gains(ctx.gateway, ctx.delegation->Some_0);
    }
}

} // verus!
