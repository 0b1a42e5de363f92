//! Paying the treasury out of stake: from a delegation, from operator stake, from
//! a withdrawal vault, or from several sources at once.

use vstd::prelude::*;
use crate::arith::{falls_by, minus_or_zero};
use crate::error::GarError;
use crate::events::{StakePaymentEvent, WithdrawalPaymentEvent};
use crate::instructions::effects::{one_transfer, transfer, Holder, Outcome, TokenTransfer};
use crate::pubkey::Pubkey;
use crate::state::accounts::{Delegation, Gateway, GatewaySettings, GatewayStatus, Withdrawal};
use crate::state::rewards::{
    gains, lemma_settled_gains, settle_delegate_rewards, settled_delegation, settled_gateway, settled_stake,
};

verus! {

/// The accounts of `deduct_delegation_for_payment`.
#[derive(Clone, Debug)]
pub struct DeductDelegationForPayment {
    pub settings: GatewaySettings,
    pub gateway: Gateway,
    pub delegation: Delegation,
    pub stake_token_account: Pubkey,
    pub protocol_token_account: Pubkey,
    pub delegator: Pubkey,
}

/// Why a payment out of a delegation is refused, if it is.
pub open spec fn delegation_payment_refusal(ctx: DeductDelegationForPayment, amount: u64) -> Option<GarError> {
    let delegation = settled_delegation(ctx.gateway.cumulative_reward_per_token, ctx.delegation);
    let remaining = delegation.amount - amount;
    if ctx.delegation.delegator != ctx.delegator {
        Some(GarError::NotDelegator)
    } else if ctx.stake_token_account != ctx.settings.stake_token_account {
        Some(GarError::InvalidParameter)
    } else if ctx.protocol_token_account != ctx.settings.protocol_token_account {
        Some(GarError::InvalidParameter)
    } else if amount == 0 {
        Some(GarError::InvalidAmount)
    } else if ctx.gateway.status != GatewayStatus::Joined {
        Some(GarError::GatewayNotJoined)
    } else if remaining < 0 {
        Some(GarError::InsufficientDelegationForPayment)
    } else if remaining != 0 && remaining < ctx.gateway.settings.min_delegation_amount {
        Some(GarError::DelegationBelowMinimum)
    } else if settled_stake(ctx.gateway, ctx.delegation) < amount {
        Some(GarError::ArithmeticUnderflow)
    } else {
        None
    }
}

/// Pays `amount` out of a delegation, pending rewards included, straight to the
/// treasury. What stays must be nothing, or at least the gateway's minimum.
pub fn deduct_delegation_for_payment(
    ctx: DeductDelegationForPayment,
    amount: u64,
    now: i64,
) -> (r: Result<Outcome<DeductDelegationForPayment, StakePaymentEvent>, GarError>)
    ensures
        match r {
            Err(e) => delegation_payment_refusal(ctx, amount) == Some(e),
            Ok(o) => {
                let gateway = settled_gateway(ctx.gateway, ctx.delegation);
                let delegation = settled_delegation(ctx.gateway.cumulative_reward_per_token, ctx.delegation);
                &&& delegation_payment_refusal(ctx, amount) is None
                &&& o.accounts == (DeductDelegationForPayment {
                    settings: GatewaySettings {
                        total_delegated: minus_or_zero(ctx.settings.total_delegated as int, amount as int) as u64,
                        ..ctx.settings
                    },
                    gateway: Gateway {
                        total_delegated_stake: (gateway.total_delegated_stake - amount) as u64,
                        ..gateway
                    },
                    delegation: Delegation { amount: (delegation.amount - amount) as u64, ..delegation },
                    ..ctx
                })
                &&& o.transfers@ == seq![transfer(Holder::StakePool, Holder::Treasury, amount as int)]
                &&& o.event == (StakePaymentEvent {
                    payer: ctx.delegator,
                    gateway: ctx.gateway.operator,
                    amount,
                    is_delegate: true,
                    timestamp: now,
                })
            },
        },
{
    let mut ctx = ctx;
    if ctx.delegation.delegator != ctx.delegator {
        return Err(GarError::NotDelegator);
    }
    if ctx.stake_token_account != ctx.settings.stake_token_account {
        return Err(GarError::InvalidParameter);
    }
    if ctx.protocol_token_account != ctx.settings.protocol_token_account {
        return Err(GarError::InvalidParameter);
    }
    if amount == 0 {
        return Err(GarError::InvalidAmount);
    }
    if ctx.gateway.status != GatewayStatus::Joined {
        return Err(GarError::GatewayNotJoined);
    }
    settle_delegate_rewards(&mut ctx.gateway, &mut ctx.delegation);
    if ctx.delegation.amount < amount {
        return Err(GarError::InsufficientDelegationForPayment);
    }
    let remaining: u64 = ctx.delegation.amount - amount;
    if remaining != 0 && remaining < ctx.gateway.settings.min_delegation_amount {
        return Err(GarError::DelegationBelowMinimum);
    }
    ctx.delegation.amount = remaining;
    if ctx.gateway.total_delegated_stake < amount {
        return Err(GarError::ArithmeticUnderflow);
    }
    ctx.gateway.total_delegated_stake = ctx.gateway.total_delegated_stake - amount;
    let event = StakePaymentEvent {
        payer: ctx.delegator,
        gateway: ctx.gateway.operator,
        amount,
        is_delegate: true,
        timestamp: now,
    };
    ctx.settings.total_delegated = ctx.settings.total_delegated.saturating_sub(amount);
    Ok(Outcome { accounts: ctx, transfers: one_transfer(Holder::StakePool, Holder::Treasury, amount), event })
}

/// The accounts of `deduct_operator_stake_for_payment`.
#[derive(Clone, Debug)]
pub struct DeductOperatorStakeForPayment {
    pub settings: GatewaySettings,
    pub gateway: Gateway,
    pub stake_token_account: Pubkey,
    pub protocol_token_account: Pubkey,
    pub operator: Pubkey,
}

/// Why a payment out of operator stake is refused, if it is.
pub open spec fn operator_payment_refusal(ctx: DeductOperatorStakeForPayment, amount: u64) -> Option<GarError> {
    if ctx.gateway.operator != ctx.operator {
        Some(GarError::NotOperator)
    } else if ctx.stake_token_account != ctx.settings.stake_token_account {
        Some(GarError::InvalidParameter)
    } else if ctx.protocol_token_account != ctx.settings.protocol_token_account {
        Some(GarError::InvalidParameter)
    } else if amount == 0 {
        Some(GarError::InvalidAmount)
    } else if ctx.gateway.status != GatewayStatus::Joined {
        Some(GarError::GatewayNotJoined)
    } else if ctx.gateway.operator_stake < amount {
        Some(GarError::InsufficientOperatorStakeForPayment)
    } else if ctx.gateway.operator_stake - amount < ctx.settings.min_operator_stake {
        Some(GarError::StakeBelowMinimum)
    } else {
        None
    }
}

/// Pays `amount` out of operator stake straight to the treasury. The minimum
/// operator stake must stay, so that the gateway stays viable.
pub fn deduct_operator_stake_for_payment(
    ctx: DeductOperatorStakeForPayment,
    amount: u64,
    now: i64,
) -> (r: Result<Outcome<DeductOperatorStakeForPayment, StakePaymentEvent>, GarError>)
    ensures
        match r {
            Err(e) => operator_payment_refusal(ctx, amount) == Some(e),
            Ok(o) => {
                &&& operator_payment_refusal(ctx, amount) is None
                &&& o.accounts == (DeductOperatorStakeForPayment {
                    settings: GatewaySettings {
                        total_staked: minus_or_zero(ctx.settings.total_staked as int, amount as int) as u64,
                        ..ctx.settings
                    },
                    gateway: Gateway {
                        operator_stake: (ctx.gateway.operator_stake - amount) as u64,
                        ..ctx.gateway
                    },
                    ..ctx
                })
                &&& o.transfers@ == seq![transfer(Holder::StakePool, Holder::Treasury, amount as int)]
                &&& o.event == (StakePaymentEvent {
                    payer: ctx.operator,
                    gateway: ctx.gateway.operator,
                    amount,
                    is_delegate: false,
                    timestamp: now,
                })
            },
        },
{
    let mut ctx = ctx;
    if ctx.gateway.operator != ctx.operator {
        return Err(GarError::NotOperator);
    }
    if ctx.stake_token_account != ctx.settings.stake_token_account {
        return Err(GarError::InvalidParameter);
    }
    if ctx.protocol_token_account != ctx.settings.protocol_token_account {
        return Err(GarError::InvalidParameter);
    }
    if amount == 0 {
        return Err(GarError::InvalidAmount);
    }
    if ctx.gateway.status != GatewayStatus::Joined {
        return Err(GarError::GatewayNotJoined);
    }
    if ctx.gateway.operator_stake < amount {
        return Err(GarError::InsufficientOperatorStakeForPayment);
    }
    let remaining: u64 = ctx.gateway.operator_stake - amount;
    if remaining < ctx.settings.min_operator_stake {
        return Err(GarError::StakeBelowMinimum);
    }
    ctx.gateway.operator_stake = remaining;
    let event = StakePaymentEvent {
        payer: ctx.operator,
        gateway: ctx.gateway.operator,
        amount,
        is_delegate: false,
        timestamp: now,
    };
    ctx.settings.total_staked = ctx.settings.total_staked.saturating_sub(amount);
    Ok(Outcome { accounts: ctx, transfers: one_transfer(Holder::StakePool, Holder::Treasury, amount), event })
}

/// The accounts of `deduct_withdrawal_for_payment`.
#[derive(Clone, Copy, Debug)]
pub struct DeductWithdrawalForPayment {
    pub settings: GatewaySettings,
    pub withdrawal: Withdrawal,
    pub stake_token_account: Pubkey,
    pub protocol_token_account: Pubkey,
    pub owner: Pubkey,
}

/// Why a payment out of a withdrawal vault is refused, if it is.
pub open spec fn withdrawal_payment_refusal(ctx: DeductWithdrawalForPayment, amount: u64) -> Option<GarError> {
    if ctx.withdrawal.owner != ctx.owner {
        Some(GarError::InvalidOwner)
    } else if ctx.stake_token_account != ctx.settings.stake_token_account {
        Some(GarError::InvalidParameter)
    } else if ctx.protocol_token_account != ctx.settings.protocol_token_account {
        Some(GarError::InvalidParameter)
    } else if amount == 0 {
        Some(GarError::InvalidAmount)
    } else if ctx.withdrawal.is_protected {
        Some(GarError::ProtectedVault)
    } else if ctx.withdrawal.amount < amount {
        Some(GarError::InsufficientWithdrawalForPayment)
    } else {
        None
    }
}

/// Pays `amount` out of a withdrawal vault, locked or not, to the treasury. What
/// stays keeps its lock; an emptied vault stays open.
pub fn deduct_withdrawal_for_payment(
    ctx: DeductWithdrawalForPayment,
    amount: u64,
    now: i64,
) -> (r: Result<Outcome<DeductWithdrawalForPayment, WithdrawalPaymentEvent>, GarError>)
    ensures
        match r {
            Err(e) => withdrawal_payment_refusal(ctx, amount) == Some(e),
            Ok(o) => {
                let remaining = (ctx.withdrawal.amount - amount) as u64;
                &&& withdrawal_payment_refusal(ctx, amount) is None
                &&& o.accounts == (DeductWithdrawalForPayment {
                    settings: GatewaySettings {
                        total_withdrawn: minus_or_zero(ctx.settings.total_withdrawn as int, amount as int) as u64,
                        ..ctx.settings
                    },
                    withdrawal: Withdrawal { amount: remaining, ..ctx.withdrawal },
                    ..ctx
                })
                &&& o.transfers@ == seq![transfer(Holder::StakePool, Holder::Treasury, amount as int)]
                &&& o.event == (WithdrawalPaymentEvent {
                    owner: ctx.withdrawal.owner,
                    withdrawal_id: ctx.withdrawal.withdrawal_id,
                    amount,
                    residue: remaining,
                    timestamp: now,
                })
            },
        },
{
    let mut ctx = ctx;
    if ctx.withdrawal.owner != ctx.owner {
        return Err(GarError::InvalidOwner);
    }
    if ctx.stake_token_account != ctx.settings.stake_token_account {
        return Err(GarError::InvalidParameter);
    }
    if ctx.protocol_token_account != ctx.settings.protocol_token_account {
        return Err(GarError::InvalidParameter);
    }
    if amount == 0 {
        return Err(GarError::InvalidAmount);
    }
    if ctx.withdrawal.is_protected {
        return Err(GarError::ProtectedVault);
    }
    if ctx.withdrawal.amount < amount {
        return Err(GarError::InsufficientWithdrawalForPayment);
    }
    let remaining: u64 = ctx.withdrawal.amount - amount;
    ctx.withdrawal.amount = remaining;
    let event = WithdrawalPaymentEvent {
        owner: ctx.withdrawal.owner,
        withdrawal_id: ctx.withdrawal.withdrawal_id,
        amount,
        residue: remaining,
        timestamp: now,
    };
    ctx.settings.total_withdrawn = ctx.settings.total_withdrawn.saturating_sub(amount);
    Ok(Outcome { accounts: ctx, transfers: one_transfer(Holder::StakePool, Holder::Treasury, amount), event })
}

/// A payment out of a delegation takes exactly the amount from the delegation, from
/// the gateway's delegated stake and from the counter of delegated tokens, and pays it
/// to the treasury. What stays is nothing, or at least the gateway's minimum.
pub proof fn delegation_payment_reaches_the_treasury(
    ctx: DeductDelegationForPayment,
    amount: u64,
    now: i64,
    r: Result<Outcome<DeductDelegationForPayment, StakePaymentEvent>, GarError>,
)
    requires
        call_ensures(deduct_delegation_for_payment, (ctx, amount, now), r),
    ensures
        r matches Err(e) ==> match e {
            GarError::NotDelegator => ctx.delegator != ctx.delegation.delegator,
            GarError::InvalidParameter => ctx.stake_token_account != ctx.settings.stake_token_account
                || ctx.protocol_token_account != ctx.settings.protocol_token_account,
            GarError::InvalidAmount => amount == 0,
            GarError::GatewayNotJoined => ctx.gateway.status != GatewayStatus::Joined,
            GarError::InsufficientDelegationForPayment => ctx.delegation.amount < amount,
            GarError::DelegationBelowMinimum => ctx.delegation.amount - amount
                < ctx.gateway.settings.min_delegation_amount,
            GarError::ArithmeticUnderflow => ctx.gateway.total_delegated_stake < amount,
            _ => false,
        },
        r matches Ok(o) ==> {
            let (s, g, d) = (ctx.settings, ctx.gateway, ctx.delegation);
            let (s2, g2, d2) = (o.accounts.settings, o.accounts.gateway, o.accounts.delegation);
            let c = g.cumulative_reward_per_token;
            &&& ctx.delegator == d.delegator
            &&& ctx.stake_token_account == s.stake_token_account
            &&& ctx.protocol_token_account == s.protocol_token_account
            &&& amount > 0
            &&& g.status == GatewayStatus::Joined
            &&& o.transfers@ == seq![TokenTransfer { from: Holder::StakePool, to: Holder::Treasury, amount }]
            &&& d2 == (Delegation { amount: d2.amount, reward_debt: c, ..d })
            &&& d2.amount + amount < u64::MAX ==> gains(d.amount, d.reward_debt, c, d2.amount + amount - d.amount)
            &&& d2.amount == 0 || d2.amount >= g.settings.min_delegation_amount
            &&& g2 == (Gateway { total_delegated_stake: g2.total_delegated_stake, ..g })
            &&& g2.total_delegated_stake + amount < u64::MAX ==> gains(
                d.amount,
                d.reward_debt,
                c,
                g2.total_delegated_stake + amount - g.total_delegated_stake,
            )
            &&& s2 == (GatewaySettings { total_delegated: s2.total_delegated, ..s })
            &&& falls_by(s.total_delegated, s2.total_delegated, amount as int)
            &&& o.event.payer == ctx.delegator
            &&& o.event.gateway == g.operator
            &&& o.event.amount == amount
            &&& o.event.is_delegate
            &&& o.event.timestamp == now
        },
{
    lemma_settled_gains(ctx.gateway, ctx.delegation);
}

/// A payment out of operator stake takes exactly the amount from the gateway and from
/// the counter of staked tokens, and pays it to the treasury. The minimum operator
/// stake stays.
pub proof fn operator_payment_reaches_the_treasury(
    ctx: DeductOperatorStakeForPayment,
    amount: u64,
    now: i64,
    r: Result<Outcome<DeductOperatorStakeForPayment, StakePaymentEvent>, GarError>,
)
    requires
        call_ensures(deduct_operator_stake_for_payment, (ctx, amount, now), r),
    ensures
        r matches Err(e) ==> match e {
            GarError::NotOperator => ctx.operator != ctx.gateway.operator,
            GarError::InvalidParameter => ctx.stake_token_account != ctx.settings.stake_token_account
                || ctx.protocol_token_account != ctx.settings.protocol_token_account,
            GarError::InvalidAmount => amount == 0,
            GarError::GatewayNotJoined => ctx.gateway.status != GatewayStatus::Joined,
            GarError::InsufficientOperatorStakeForPayment => ctx.gateway.operator_stake < amount,
            GarError::StakeBelowMinimum => ctx.gateway.operator_stake - amount < ctx.settings.min_operator_stake,
            _ => false,
        },
        r matches Ok(o) ==> {
            let (s, g) = (ctx.settings, ctx.gateway);
            let (s2, g2) = (o.accounts.settings, o.accounts.gateway);
            &&& ctx.operator == g.operator
            &&& ctx.stake_token_account == s.stake_token_account
            &&& ctx.protocol_token_account == s.protocol_token_account
            &&& amount > 0
            &&& g.status == GatewayStatus::Joined
            &&& o.transfers@ == seq![TokenTransfer { from: Holder::StakePool, to: Holder::Treasury, amount }]
            &&& g2.operator_stake + amount == g.operator_stake
            &&& g2.operator_stake >= s.min_operator_stake
            &&& g2 == (Gateway { operator_stake: g2.operator_stake, ..g })
            &&& s2 == (GatewaySettings { total_staked: s2.total_staked, ..s })
            &&& falls_by(s.total_staked, s2.total_staked, amount as int)
            &&& o.event.payer == ctx.operator
            &&& o.event.gateway == g.operator
            &&& o.event.amount == amount
            &&& !o.event.is_delegate
            &&& o.event.timestamp == now
        },
{
}

/// A payment out of a withdrawal takes exactly the amount from the withdrawal and from
/// the counter of withdrawn tokens, and pays it to the treasury. The lock of what
/// stays is unchanged, and a protected vault pays for nothing.
pub proof fn withdrawal_payment_reaches_the_treasury(
    ctx: DeductWithdrawalForPayment,
    amount: u64,
    now: i64,
    r: Result<Outcome<DeductWithdrawalForPayment, WithdrawalPaymentEvent>, GarError>,
)
    requires
        call_ensures(deduct_withdrawal_for_payment, (ctx, amount, now), r),
    ensures
        r matches Err(e) ==> match e {
            GarError::InvalidOwner => ctx.owner != ctx.withdrawal.owner,
            GarError::InvalidParameter => ctx.stake_token_account != ctx.settings.stake_token_account
                || ctx.protocol_token_account != ctx.settings.protocol_token_account,
            GarError::InvalidAmount => amount == 0,
            GarError::ProtectedVault => ctx.withdrawal.is_protected,
            GarError::InsufficientWithdrawalForPayment => ctx.withdrawal.amount < amount,
            _ => false,
        },
        r matches Ok(o) ==> {
            let (s, w) = (ctx.settings, ctx.withdrawal);
            let (s2, w2) = (o.accounts.settings, o.accounts.withdrawal);
            &&& ctx.owner == w.owner
            &&& ctx.stake_token_account == s.stake_token_account
            &&& ctx.protocol_token_account == s.protocol_token_account
            &&& amount > 0
            &&& !w.is_protected
            &&& o.transfers@ == seq![TokenTransfer { from: Holder::StakePool, to: Holder::Treasury, amount }]
            &&& w2.amount + amount == w.amount
            &&& w2 == (Withdrawal { amount: w2.amount, ..w })
            &&& s2 == (GatewaySettings { total_withdrawn: s2.total_withdrawn, ..s })
            &&& falls_by(s.total_withdrawn, s2.total_withdrawn, amount as int)
            &&& o.event.owner == w.owner
            &&& o.event.withdrawal_id == w.withdrawal_id
            &&& o.event.amount == amount
            &&& o.event.residue == w2.amount
            &&& o.event.timestamp == now
        },
{
}

} // verus!
