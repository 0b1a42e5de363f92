//! Adding to operator stake, and taking from it.

use vstd::prelude::*;
use crate::arith::{falls_by, minus_or_zero};
use crate::error::GarError;
use crate::events::{OperatorStakeIncreasedEvent, WithdrawalClaimedEvent, WithdrawalCreatedEvent};
use crate::instructions::delegate::lock_overflows;
use crate::instructions::effects::{one_transfer, transfer, Holder, Outcome, TokenTransfer};
use crate::instructions::withdrawal::{claim_withdrawal, ClaimWithdrawal};
use crate::pubkey::Pubkey;
use crate::state::accounts::{
    Gateway, GatewaySettings, GatewayStatus, SchemaVersion, Withdrawal, WithdrawalCounter,
};

verus! {

/// The accounts of `increase_operator_stake`.
#[derive(Clone, Debug)]
pub struct IncreaseOperatorStake {
    pub settings: GatewaySettings,
    pub gateway: Gateway,
    pub stake_token_account: Pubkey,
    pub operator: Pubkey,
}

/// Why operator stake cannot be added to, if so.
pub open spec fn increase_refusal(ctx: IncreaseOperatorStake, amount: u64) -> Option<GarError> {
    if ctx.gateway.operator != ctx.operator {
        Some(GarError::NotOperator)
    } else if ctx.stake_token_account != ctx.settings.stake_token_account {
        Some(GarError::InvalidParameter)
    } else if amount == 0 {
        Some(GarError::InvalidAmount)
    } else if ctx.gateway.status != GatewayStatus::Joined {
        Some(GarError::GatewayLeaving)
    } else if ctx.gateway.operator_stake + amount > u64::MAX || ctx.settings.total_staked + amount > u64::MAX {
        Some(GarError::ArithmeticOverflow)
    } else {
        None
    }
}

/// Adds to the stake of a joined gateway's operator.
pub fn increase_operator_stake(ctx: IncreaseOperatorStake, amount: u64, now: i64) -> (r: Result<
    Outcome<IncreaseOperatorStake, OperatorStakeIncreasedEvent>,
    GarError,
>)
    ensures
        match r {
            Err(e) => increase_refusal(ctx, amount) == Some(e),
            Ok(o) => {
                let new_total = (ctx.gateway.operator_stake + amount) as u64;
                &&& increase_refusal(ctx, amount) is None
                &&& o.accounts == (IncreaseOperatorStake {
                    settings: GatewaySettings {
                        total_staked: (ctx.settings.total_staked + amount) as u64,
                        ..ctx.settings
                    },
                    gateway: Gateway { operator_stake: new_total, ..ctx.gateway },
                    ..ctx
                })
                &&& o.transfers@ == seq![transfer(Holder::Wallet, Holder::StakePool, amount as int)]
                &&& o.event == (OperatorStakeIncreasedEvent {
                    operator: ctx.gateway.operator,
                    added: amount,
                    new_total,
                    timestamp: now,
                })
            },
        },
{
    let mut ctx = ctx;
    if ctx.gateway.operator != ctx.operator {
        return Err(GarError::NotOperator);
    }
    if ctx.stake_token_account != ctx.settings.stake_token_account {
        return Err(GarError::InvalidParameter);
    }
    if amount == 0 {
        return Err(GarError::InvalidAmount);
    }
    if ctx.gateway.status != GatewayStatus::Joined {
        return Err(GarError::GatewayLeaving);
    }
    ctx.gateway.operator_stake = match ctx.gateway.operator_stake.checked_add(amount) {
        None => {
            return Err(GarError::ArithmeticOverflow);
        },
        Some(sum) => sum,
    };
    let event = OperatorStakeIncreasedEvent {
        operator: ctx.gateway.operator,
        added: amount,
        new_total: ctx.gateway.operator_stake,
        timestamp: now,
    };
    ctx.settings.total_staked = match ctx.settings.total_staked.checked_add(amount) {
        None => {
            return Err(GarError::ArithmeticOverflow);
        },
        Some(sum) => sum,
    };
    Ok(Outcome { accounts: ctx, transfers: one_transfer(Holder::Wallet, Holder::StakePool, amount), event })
}

/// The accounts of `decrease_operator_stake`.
#[derive(Clone, Debug)]
pub struct DecreaseOperatorStake {
    pub settings: GatewaySettings,
    pub gateway: Gateway,
    pub withdrawal_counter: WithdrawalCounter,
    /// The bump seed of the withdrawal to be opened.
    pub withdrawal_bump: u8,
    pub operator: Pubkey,
}

/// The accounts that hold an operator's stake once some of it is on its way out.
#[derive(Clone, Debug)]
pub struct OperatorWithdrawn {
    pub settings: GatewaySettings,
    pub gateway: Gateway,
    pub withdrawal_counter: WithdrawalCounter,
    pub withdrawal: Withdrawal,
}

/// Why an operator cannot take stake back, if so.
pub open spec fn decrease_operator_refusal(ctx: DecreaseOperatorStake, amount: u64, now: i64) -> Option<GarError> {
    let remaining = ctx.gateway.operator_stake - amount;
    if ctx.gateway.operator != ctx.operator {
        Some(GarError::NotOperator)
    } else if amount == 0 {
        Some(GarError::InvalidAmount)
    } else if remaining < 0 {
        Some(GarError::InsufficientStake)
    } else if remaining != 0 && remaining < ctx.settings.min_operator_stake {
        Some(GarError::StakeBelowMinimum)
    } else if remaining == 0 && ctx.gateway.status != GatewayStatus::Leaving {
        Some(GarError::MustLeaveFirst)
    } else if lock_overflows(now, ctx.settings.withdrawal_period) || ctx.withdrawal_counter.next_id == u64::MAX
        || ctx.settings.total_withdrawn + amount > u64::MAX {
        Some(GarError::ArithmeticOverflow)
    } else {
        None
    }
}

/// The accounts once an operator has taken stake back.
pub open spec fn operator_decreased(ctx: DecreaseOperatorStake, amount: u64, now: i64) -> OperatorWithdrawn {
    OperatorWithdrawn {
        settings: GatewaySettings {
            total_staked: minus_or_zero(ctx.settings.total_staked as int, amount as int) as u64,
            total_withdrawn: (ctx.settings.total_withdrawn + amount) as u64,
            ..ctx.settings
        },
        gateway: Gateway {
            operator_stake: (ctx.gateway.operator_stake - amount) as u64,
            ..ctx.gateway
        },
        withdrawal_counter: WithdrawalCounter {
            next_id: (ctx.withdrawal_counter.next_id + 1) as u64,
            ..ctx.withdrawal_counter
        },
        withdrawal: Withdrawal {
            owner: ctx.operator,
            withdrawal_id: ctx.withdrawal_counter.next_id,
            gateway: ctx.gateway.operator,
            amount,
            created_at: now,
            available_at: (now + ctx.settings.withdrawal_period) as i64,
            is_delegate: false,
            is_exit_vault: false,
            is_protected: false,
            bump: ctx.withdrawal_bump,
            version: SchemaVersion { major: 0, minor: 0, patch: 0 },
        },
    }
}

/// Takes operator stake back into a withdrawal. The minimum must stay, unless the
/// gateway is leaving and takes all.
pub fn decrease_operator_stake(ctx: DecreaseOperatorStake, amount: u64, now: i64) -> (r: Result<
    Outcome<OperatorWithdrawn, WithdrawalCreatedEvent>,
    GarError,
>)
    ensures
        match r {
            Err(e) => decrease_operator_refusal(ctx, amount, now) == Some(e),
            Ok(o) => {
                let w = operator_decreased(ctx, amount, now).withdrawal;
                &&& decrease_operator_refusal(ctx, amount, now) is None
                &&& o.accounts == operator_decreased(ctx, amount, now)
                &&& o.transfers@.len() == 0
                &&& o.event == (WithdrawalCreatedEvent {
                    owner: w.owner,
                    withdrawal_id: w.withdrawal_id,
                    amount,
                    available_at: w.available_at,
                    timestamp: now,
                })
            },
        },
{
    let mut ctx = ctx;
    if ctx.gateway.operator != ctx.operator {
        return Err(GarError::NotOperator);
    }
    if amount == 0 {
        return Err(GarError::InvalidAmount);
    }
    let remaining: u64 = match ctx.gateway.operator_stake.checked_sub(amount) {
        None => {
            return Err(GarError::InsufficientStake);
        },
        Some(remaining) => remaining,
    };
    if remaining < ctx.settings.min_operator_stake && remaining != 0 {
        return Err(GarError::StakeBelowMinimum);
    }
    if remaining == 0 && ctx.gateway.status != GatewayStatus::Leaving {
        return Err(GarError::MustLeaveFirst);
    }
    ctx.gateway.operator_stake = remaining;
    let available_at: i64 = match now.checked_add(ctx.settings.withdrawal_period) {
        None => {
            return Err(GarError::ArithmeticOverflow);
        },
        Some(t) => t,
    };
    let withdrawal = Withdrawal {
        owner: ctx.operator,
        withdrawal_id: ctx.withdrawal_counter.next_id,
        gateway: ctx.gateway.operator,
        amount,
        created_at: now,
        available_at,
        is_delegate: false,
        is_exit_vault: false,
        is_protected: false,
        bump: ctx.withdrawal_bump,
        version: SchemaVersion::new(0, 0, 0),
    };
    ctx.withdrawal_counter.next_id = match ctx.withdrawal_counter.next_id.checked_add(1) {
        None => {
            return Err(GarError::ArithmeticOverflow);
        },
        Some(id) => id,
    };
    let event = WithdrawalCreatedEvent {
        owner: withdrawal.owner,
        withdrawal_id: withdrawal.withdrawal_id,
        amount,
        available_at,
        timestamp: now,
    };
    ctx.settings.total_staked = ctx.settings.total_staked.saturating_sub(amount);
    ctx.settings.total_withdrawn = match ctx.settings.total_withdrawn.checked_add(amount) {
        None => {
            return Err(GarError::ArithmeticOverflow);
        },
        Some(total) => total,
    };
    Ok(
        Outcome {
            accounts: OperatorWithdrawn {
                settings: ctx.settings,
                gateway: ctx.gateway,
                withdrawal_counter: ctx.withdrawal_counter,
                withdrawal,
            },
            transfers: Vec::new(),
            event,
        },
    )
}

/// What an operator adds comes out of the wallet into the stake pool, and stands in
/// the gateway and in the counter of staked tokens.
pub proof fn increase_adds_what_is_paid_in(
    ctx: IncreaseOperatorStake,
    amount: u64,
    now: i64,
    r: Result<Outcome<IncreaseOperatorStake, OperatorStakeIncreasedEvent>, GarError>,
)
    requires
        call_ensures(increase_operator_stake, (ctx, amount, now), r),
    ensures
        r is Ok <==> ctx.operator == ctx.gateway.operator && ctx.stake_token_account
            == ctx.settings.stake_token_account && amount > 0 && ctx.gateway.status == GatewayStatus::Joined
            && ctx.gateway.operator_stake + amount <= u64::MAX && ctx.settings.total_staked + amount <= u64::MAX,
        r matches Err(e) ==> match e {
            GarError::NotOperator => ctx.operator != ctx.gateway.operator,
            GarError::InvalidParameter => ctx.stake_token_account != ctx.settings.stake_token_account,
            GarError::InvalidAmount => amount == 0,
            GarError::GatewayLeaving => ctx.gateway.status != GatewayStatus::Joined,
            GarError::ArithmeticOverflow => ctx.gateway.operator_stake + amount > u64::MAX
                || ctx.settings.total_staked + amount > u64::MAX,
            _ => false,
        },
        r matches Ok(o) ==> {
            let (s, s2) = (ctx.settings, o.accounts.settings);
            let (g, g2) = (ctx.gateway, o.accounts.gateway);
            &&& g2.operator_stake == g.operator_stake + amount
            &&& g2 == (Gateway { operator_stake: g2.operator_stake, ..g })
            &&& s2.total_staked == s.total_staked + amount
            &&& s2 == (GatewaySettings { total_staked: s2.total_staked, ..s })
            &&& o.transfers@ == seq![TokenTransfer { from: Holder::Wallet, to: Holder::StakePool, amount }]
            &&& o.event.operator == g.operator
            &&& o.event.added == amount
            &&& o.event.new_total == g.operator_stake + amount
            &&& o.event.timestamp == now
        },
{
}

/// What an operator takes back leaves the gateway for a withdrawal that is the
/// operator's own, under the next number of the operator's counter. The minimum stays
/// staked, unless the gateway is leaving and takes all. No tokens move yet.
pub proof fn operator_decrease_moves_stake_into_a_withdrawal(
    ctx: DecreaseOperatorStake,
    amount: u64,
    now: i64,
    r: Result<Outcome<OperatorWithdrawn, WithdrawalCreatedEvent>, GarError>,
)
    requires
        call_ensures(decrease_operator_stake, (ctx, amount, now), r),
    ensures
        r is Ok <==> {
            &&& ctx.operator == ctx.gateway.operator
            &&& 0 < amount <= ctx.gateway.operator_stake
            &&& ctx.gateway.operator_stake - amount >= ctx.settings.min_operator_stake || amount
                == ctx.gateway.operator_stake
            &&& amount == ctx.gateway.operator_stake ==> ctx.gateway.status == GatewayStatus::Leaving
            &&& i64::MIN <= now + ctx.settings.withdrawal_period <= i64::MAX
            &&& ctx.withdrawal_counter.next_id < u64::MAX
            &&& ctx.settings.total_withdrawn + amount <= u64::MAX
        },
        r matches Err(e) ==> match e {
            GarError::NotOperator => ctx.operator != ctx.gateway.operator,
            GarError::InvalidAmount => amount == 0,
            GarError::InsufficientStake => amount > ctx.gateway.operator_stake,
            GarError::StakeBelowMinimum => 0 < ctx.gateway.operator_stake - amount < ctx.settings.min_operator_stake,
            GarError::MustLeaveFirst => amount == ctx.gateway.operator_stake && ctx.gateway.status
                != GatewayStatus::Leaving,
            GarError::ArithmeticOverflow => true,
            _ => false,
        },
        r matches Ok(o) ==> {
            let (s, s2) = (ctx.settings, o.accounts.settings);
            let (g, g2) = (ctx.gateway, o.accounts.gateway);
            let w = o.accounts.withdrawal;
            let c2 = o.accounts.withdrawal_counter;
            &&& g2.operator_stake + w.amount == g.operator_stake
            &&& w.amount == amount
            &&& g2 == (Gateway { operator_stake: g2.operator_stake, ..g })
            &&& w.owner == ctx.operator
            &&& w.gateway == g.operator
            &&& w.withdrawal_id == ctx.withdrawal_counter.next_id
            &&& w.created_at == now
            &&& w.available_at == now + s.withdrawal_period
            &&& !w.is_delegate && !w.is_exit_vault && !w.is_protected
            &&& w.bump == ctx.withdrawal_bump
            &&& w.version.major == 0 && w.version.minor == 0 && w.version.patch == 0
            &&& c2.next_id == ctx.withdrawal_counter.next_id + 1
            &&& c2 == (WithdrawalCounter { next_id: c2.next_id, ..ctx.withdrawal_counter })
            &&& falls_by(s.total_staked, s2.total_staked, amount as int)
            &&& s2.total_withdrawn == s.total_withdrawn + amount
            &&& s2 == (GatewaySettings {
                total_staked: s2.total_staked,
                total_withdrawn: s2.total_withdrawn,
                ..s
            })
            &&& o.transfers@.len() == 0
            &&& o.event.owner == ctx.operator
            &&& o.event.withdrawal_id == w.withdrawal_id
            &&& o.event.amount == amount
            &&& o.event.available_at == w.available_at
            &&& o.event.timestamp == now
        },
{
}

/// What an operator took back can be claimed by the operator from the end of the
/// withdrawal period on, and not before.
pub proof fn operator_withdrawal_is_locked_for_the_period(
    ctx: DecreaseOperatorStake,
    amount: u64,
    now: i64,
    o: Outcome<OperatorWithdrawn, WithdrawalCreatedEvent>,
    claim: ClaimWithdrawal,
    t: i64,
    r: Result<Outcome<ClaimWithdrawal, WithdrawalClaimedEvent>, GarError>,
)
    requires
        call_ensures(decrease_operator_stake, (ctx, amount, now), Ok::<_, GarError>(o)),
        claim.withdrawal == o.accounts.withdrawal,
        claim.owner == ctx.operator,
        claim.stake_token_account == claim.settings.stake_token_account,
        call_ensures(claim_withdrawal, (claim, t), r),
    ensures
        t < now + ctx.settings.withdrawal_period <==> r == Err::<
            Outcome<ClaimWithdrawal, WithdrawalClaimedEvent>,
            GarError,
        >(GarError::WithdrawalNotReady),
        t >= now + ctx.settings.withdrawal_period <==> r is Ok,
        r matches Ok(paid) ==> paid.transfers@ == seq![
            TokenTransfer { from: Holder::StakePool, to: Holder::Wallet, amount },
        ],
{
}

} // verus!
