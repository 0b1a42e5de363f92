//! Staking with a gateway, moving the stake to another, and taking it back.

use vstd::prelude::*;
use crate::addresses::{allowlist_address, allowlist_pda};
use crate::arith::{
    falls_by, is_part, lemma_quotient_is_part, lemma_share_bounded, minus_or_zero, mul_wide,
};
use crate::error::GarError;
use crate::events::{
    DelegationClosedEvent, DelegationDecreasedEvent, DelegationEvent, RedelegationEvent, RewardsCompoundedEvent,
    WithdrawalClaimedEvent,
};
use crate::instructions::effects::{
    one_transfer, transfer, transfer_if_any, Holder, Outcome, Refusal, TokenTransfer,
};
use crate::instructions::withdrawal::{claim_withdrawal, ClaimWithdrawal};
use crate::pubkey::Pubkey;
use crate::state::accounts::{
    Delegation, Gateway, GatewaySettings, GatewayStatus, RedelegationRecord, SchemaVersion, Withdrawal,
    WithdrawalCounter,
};
use crate::state::constants::RATE_SCALE;
use crate::state::rewards::{
    gains, lemma_settled_gains, settle_delegate_rewards, settled_delegation, settled_gateway, settled_stake,
};

verus! {

/// An account that is passed as an allowlist entry.
#[derive(Clone, Copy, Debug)]
pub struct EntryAccount {
    pub key: Pubkey,
    /// Whether the account belongs to this program.
    pub owned: bool,
}

/// Why an allowlist keeps a delegate out, if it does. Those who have stake already
/// may add to it; anyone else needs an entry, which lies at the `expected` address.
pub open spec fn allowlist_refusal(
    enabled: bool,
    staked: u64,
    supplied: Option<EntryAccount>,
    expected: Option<(Pubkey, u8)>,
) -> Option<Refusal> {
    if !enabled || staked > 0 {
        None
    } else {
        match expected {
            None => Some(Refusal::NoProgramAddress),
            Some((key, bump)) => if supplied matches Some(entry) && entry.key == key && entry.owned {
                None
            } else {
                Some(Refusal::Gar(GarError::DelegateNotAllowed))
            },
        }
    }
}

fn check_allowlist(
    enabled: bool,
    staked: u64,
    supplied: &Option<EntryAccount>,
    expected: &Option<(Pubkey, u8)>,
) -> (r: Result<(), Refusal>)
    ensures
        match r {
            Err(e) => allowlist_refusal(enabled, staked, *supplied, *expected) == Some(e),
            Ok(()) => allowlist_refusal(enabled, staked, *supplied, *expected) is None,
        },
{
    if !enabled || staked > 0 {
        return Ok(());
    }
    match expected {
        None => Err(Refusal::NoProgramAddress),
        Some((key, _bump)) => match supplied {
            None => Err(Refusal::Gar(GarError::DelegateNotAllowed)),
            Some(entry) => if entry.key == *key && entry.owned {
                Ok(())
            } else {
                Err(Refusal::Gar(GarError::DelegateNotAllowed))
            },
        },
    }
}

/// The accounts of `delegate_stake`.
#[derive(Clone, Debug)]
pub struct DelegateStake {
    pub settings: GatewaySettings,
    pub gateway: Gateway,
    /// The delegation; without an amount if it was just opened.
    pub delegation: Delegation,
    /// The bump seed of the delegation's address.
    pub delegation_bump: u8,
    pub stake_token_account: Pubkey,
    pub delegator: Pubkey,
    /// The allowlist entry, if it was passed.
    pub allowlist_entry: Option<EntryAccount>,
    pub program_id: Pubkey,
}

/// Why stake is refused, if it is.
pub open spec fn delegate_refusal(
    ctx: DelegateStake,
    amount: u64,
    allow_address: Option<(Pubkey, u8)>,
) -> Option<Refusal> {
    let settled = settled_delegation(ctx.gateway.cumulative_reward_per_token, ctx.delegation);
    if ctx.stake_token_account != ctx.settings.stake_token_account {
        Some(Refusal::Gar(GarError::InvalidParameter))
    } else if amount == 0 {
        Some(Refusal::Gar(GarError::InvalidAmount))
    } else if !ctx.gateway.settings.allow_delegated_staking {
        Some(Refusal::Gar(GarError::DelegationNotAllowed))
    } else if amount < ctx.gateway.settings.min_delegation_amount {
        Some(Refusal::Gar(GarError::DelegationBelowMinimum))
    } else if ctx.gateway.status != GatewayStatus::Joined {
        Some(Refusal::Gar(GarError::GatewayNotJoined))
    } else if ctx.delegator == ctx.gateway.operator {
        Some(Refusal::Gar(GarError::CannotDelegateToSelf))
    } else if allowlist_refusal(
        ctx.gateway.settings.allowlist_enabled,
        ctx.delegation.amount,
        ctx.allowlist_entry,
        allow_address,
    ) is Some {
        allowlist_refusal(
            ctx.gateway.settings.allowlist_enabled,
            ctx.delegation.amount,
            ctx.allowlist_entry,
            allow_address,
        )
    } else if settled.amount + amount > u64::MAX || settled_stake(ctx.gateway, ctx.delegation) + amount > u64::MAX
        || ctx.settings.total_delegated + amount > u64::MAX {
        Some(Refusal::Gar(GarError::ArithmeticOverflow))
    } else {
        None
    }
}

/// A delegation after stake has been added; one that held nothing starts anew.
pub open spec fn stake_added(ctx: DelegateStake, amount: u64, now: i64) -> Delegation {
    let settled = settled_delegation(ctx.gateway.cumulative_reward_per_token, ctx.delegation);
    let is_new = ctx.delegation.amount == 0;
    Delegation {
        gateway: ctx.gateway.operator,
        delegator: ctx.delegator,
        amount: (settled.amount + amount) as u64,
        start_timestamp: if is_new {
            now
        } else {
            ctx.delegation.start_timestamp
        },
        bump: if is_new {
            ctx.delegation_bump
        } else {
            ctx.delegation.bump
        },
        ..settled
    }
}

/// The accounts after stake has been added.
pub open spec fn delegated(ctx: DelegateStake, amount: u64, now: i64) -> DelegateStake {
    DelegateStake {
        settings: GatewaySettings {
            total_delegated: (ctx.settings.total_delegated + amount) as u64,
            ..ctx.settings
        },
        gateway: Gateway {
            total_delegated_stake: (settled_stake(ctx.gateway, ctx.delegation) + amount) as u64,
            ..ctx.gateway
        },
        delegation: stake_added(ctx, amount, now),
        ..ctx
    }
}

pub open spec fn delegation_event(ctx: DelegateStake, amount: u64, now: i64) -> DelegationEvent {
    DelegationEvent {
        delegator: ctx.delegator,
        gateway: ctx.gateway.operator,
        amount,
        total: stake_added(ctx, amount, now).amount,
        timestamp: now,
    }
}

/// Stakes with a gateway, with the address of the delegate's allowlist entry
/// given.
pub fn delegate_stake_at(ctx: DelegateStake, amount: u64, now: i64, allow_address: Option<(Pubkey, u8)>) -> (r: Result<
    Outcome<DelegateStake, DelegationEvent>,
    Refusal,
>)
    ensures
        match r {
            Err(e) => delegate_refusal(ctx, amount, allow_address) == Some(e),
            Ok(o) => {
                &&& delegate_refusal(ctx, amount, allow_address) is None
                &&& o.accounts == delegated(ctx, amount, now)
                &&& o.transfers@ == seq![transfer(Holder::Wallet, Holder::StakePool, amount as int)]
                &&& o.event == delegation_event(ctx, amount, now)
            },
        },
{
    let mut ctx = ctx;
    if ctx.stake_token_account != ctx.settings.stake_token_account {
        return Err(Refusal::Gar(GarError::InvalidParameter));
    }
    if amount == 0 {
        return Err(Refusal::Gar(GarError::InvalidAmount));
    }
    if !ctx.gateway.settings.allow_delegated_staking {
        return Err(Refusal::Gar(GarError::DelegationNotAllowed));
    }
    if amount < ctx.gateway.settings.min_delegation_amount {
        return Err(Refusal::Gar(GarError::DelegationBelowMinimum));
    }
    if ctx.gateway.status != GatewayStatus::Joined {
        return Err(Refusal::Gar(GarError::GatewayNotJoined));
    }
    if ctx.delegator == ctx.gateway.operator {
        return Err(Refusal::Gar(GarError::CannotDelegateToSelf));
    }
    match check_allowlist(
        ctx.gateway.settings.allowlist_enabled,
        ctx.delegation.amount,
        &ctx.allowlist_entry,
        &allow_address,
    ) {
        Err(e) => {
            return Err(e);
        },
        Ok(()) => {},
    }
    let is_new: bool = ctx.delegation.amount == 0;
    settle_delegate_rewards(&mut ctx.gateway, &mut ctx.delegation);
    proof {
        if is_new {
            lemma_nothing_pending_on_nothing(
                ctx.gateway.cumulative_reward_per_token,
                ctx.delegation,
            );
        }
    }
    ctx.delegation.gateway = ctx.gateway.operator;
    ctx.delegation.delegator = ctx.delegator;
    ctx.delegation.amount = match ctx.delegation.amount.checked_add(amount) {
        None => {
            return Err(Refusal::Gar(GarError::ArithmeticOverflow));
        },
        Some(sum) => sum,
    };
    if is_new {
        ctx.delegation.start_timestamp = now;
        ctx.delegation.bump = ctx.delegation_bump;
    }
    ctx.gateway.total_delegated_stake = match ctx.gateway.total_delegated_stake.checked_add(amount) {
        None => {
            return Err(Refusal::Gar(GarError::ArithmeticOverflow));
        },
        Some(sum) => sum,
    };
    let event = DelegationEvent {
        delegator: ctx.delegation.delegator,
        gateway: ctx.gateway.operator,
        amount,
        total: ctx.delegation.amount,
        timestamp: now,
    };
    ctx.settings.total_delegated = match ctx.settings.total_delegated.checked_add(amount) {
        None => {
            return Err(Refusal::Gar(GarError::ArithmeticOverflow));
        },
        Some(sum) => sum,
    };
    Ok(Outcome { accounts: ctx, transfers: one_transfer(Holder::Wallet, Holder::StakePool, amount), event })
}

/// A delegation without an amount has earned nothing.
proof fn lemma_nothing_pending_on_nothing(cumulative: u128, delegation: Delegation)
    ensures
        delegation.amount == 0 ==> crate::state::rewards::pending_rewards(cumulative, delegation) == 0,
{
    if delegation.amount == 0 && cumulative > delegation.reward_debt {
        let delta: int = cumulative - delegation.reward_debt;
        assert(0 * delta == 0);
    }
}

/// Stakes with a gateway: `delegate_stake_at` with the derived address.
pub fn delegate_stake(ctx: DelegateStake, amount: u64, now: i64) -> (r: Result<
    Outcome<DelegateStake, DelegationEvent>,
    Refusal,
>)
    ensures
        ({
            let allow_address = allowlist_pda(ctx.gateway.operator, ctx.delegator, ctx.program_id);
            match r {
                Err(e) => delegate_refusal(ctx, amount, allow_address) == Some(e),
                Ok(o) => {
                    &&& delegate_refusal(ctx, amount, allow_address) is None
                    &&& o.accounts == delegated(ctx, amount, now)
                    &&& o.transfers@ == seq![transfer(Holder::Wallet, Holder::StakePool, amount as int)]
                    &&& o.event == delegation_event(ctx, amount, now)
                },
            }
        }),
{
    let allow_address = allowlist_address(&ctx.gateway.operator, &ctx.delegator, &ctx.program_id);
    delegate_stake_at(ctx, amount, now, allow_address)
}

/// A delegate's withdrawal as it is opened.
pub open spec fn delegate_vault(
    owner: Pubkey,
    withdrawal_id: u64,
    gateway: Pubkey,
    amount: u64,
    now: i64,
    withdrawal_period: i64,
    bump: u8,
) -> Withdrawal {
    Withdrawal {
        owner,
        withdrawal_id,
        gateway,
        amount,
        created_at: now,
        available_at: (now + withdrawal_period) as i64,
        is_delegate: true,
        is_exit_vault: false,
        is_protected: false,
        bump,
        version: SchemaVersion { major: 0, minor: 0, patch: 0 },
    }
}

/// The lock cannot be reckoned: its end is out of range.
pub open spec fn lock_overflows(now: i64, withdrawal_period: i64) -> bool {
    now + withdrawal_period > i64::MAX || now + withdrawal_period < i64::MIN
}

/// The accounts of `decrease_delegate_stake`.
#[derive(Clone, Debug)]
pub struct DecreaseDelegateStake {
    pub settings: GatewaySettings,
    pub gateway: Gateway,
    pub delegation: Delegation,
    pub withdrawal_counter: WithdrawalCounter,
    /// The bump seed of the withdrawal to be opened.
    pub withdrawal_bump: u8,
    pub delegator: Pubkey,
}

/// The accounts that hold a delegate's stake once some of it is on its way out.
#[derive(Clone, Debug)]
pub struct DelegateWithdrawn {
    pub settings: GatewaySettings,
    pub gateway: Gateway,
    pub delegation: Delegation,
    pub withdrawal_counter: WithdrawalCounter,
    pub withdrawal: Withdrawal,
}

/// Why a delegate cannot take stake back, if so.
pub open spec fn decrease_refusal(ctx: DecreaseDelegateStake, amount: u64, now: i64) -> Option<GarError> {
    let settled = settled_delegation(ctx.gateway.cumulative_reward_per_token, ctx.delegation);
    let remaining = settled.amount - amount;
    if ctx.delegation.delegator != ctx.delegator {
        Some(GarError::NotDelegator)
    } else if amount == 0 {
        Some(GarError::InvalidAmount)
    } else if remaining < 0 {
        Some(GarError::InsufficientStake)
    } else if remaining != 0 && remaining < ctx.gateway.settings.min_delegation_amount {
        Some(GarError::DelegationBelowMinimum)
    } else if lock_overflows(now, ctx.settings.withdrawal_period) || ctx.withdrawal_counter.next_id == u64::MAX
        || ctx.settings.total_withdrawn + amount > u64::MAX {
        Some(GarError::ArithmeticOverflow)
    } else {
        None
    }
}

/// The accounts once a delegate has taken stake back.
pub open spec fn decreased(ctx: DecreaseDelegateStake, amount: u64, now: i64) -> DelegateWithdrawn {
    let gateway = settled_gateway(ctx.gateway, ctx.delegation);
    let delegation = settled_delegation(ctx.gateway.cumulative_reward_per_token, ctx.delegation);
    DelegateWithdrawn {
        settings: GatewaySettings {
            total_delegated: minus_or_zero(ctx.settings.total_delegated as int, amount as int) as u64,
            total_withdrawn: (ctx.settings.total_withdrawn + amount) as u64,
            ..ctx.settings
        },
        gateway: Gateway {
            total_delegated_stake: minus_or_zero(gateway.total_delegated_stake as int, amount as int) as u64,
            ..gateway
        },
        delegation: Delegation { amount: (delegation.amount - amount) as u64, ..delegation },
        withdrawal_counter: WithdrawalCounter {
            next_id: (ctx.withdrawal_counter.next_id + 1) as u64,
            ..ctx.withdrawal_counter
        },
        withdrawal: delegate_vault(
            ctx.delegator,
            ctx.withdrawal_counter.next_id,
            ctx.gateway.operator,
            amount,
            now,
            ctx.settings.withdrawal_period,
            ctx.withdrawal_bump,
        ),
    }
}

/// Takes stake back from a gateway into a withdrawal. What stays must be nothing,
/// or at least the gateway's minimum.
pub fn decrease_delegate_stake(ctx: DecreaseDelegateStake, amount: u64, now: i64) -> (r: Result<
    Outcome<DelegateWithdrawn, DelegationDecreasedEvent>,
    GarError,
>)
    ensures
        match r {
            Err(e) => decrease_refusal(ctx, amount, now) == Some(e),
            Ok(o) => {
                &&& decrease_refusal(ctx, amount, now) is None
                &&& o.accounts == decreased(ctx, amount, now)
                &&& o.transfers@.len() == 0
                &&& o.event == (DelegationDecreasedEvent {
                    delegator: ctx.delegator,
                    gateway: ctx.gateway.operator,
                    decrease: amount,
                    new_total: decreased(ctx, amount, now).delegation.amount,
                    timestamp: now,
                })
            },
        },
{
    let mut ctx = ctx;
    if ctx.delegation.delegator != ctx.delegator {
        return Err(GarError::NotDelegator);
    }
    if amount == 0 {
        return Err(GarError::InvalidAmount);
    }
    settle_delegate_rewards(&mut ctx.gateway, &mut ctx.delegation);
    if ctx.delegation.amount < amount {
        return Err(GarError::InsufficientStake);
    }
    let remaining: u64 = ctx.delegation.amount - amount;
    if remaining != 0 && remaining < ctx.gateway.settings.min_delegation_amount {
        return Err(GarError::DelegationBelowMinimum);
    }
    ctx.delegation.amount = remaining;
    ctx.gateway.total_delegated_stake = ctx.gateway.total_delegated_stake.saturating_sub(amount);
    let event = DelegationDecreasedEvent {
        delegator: ctx.delegator,
        gateway: ctx.gateway.operator,
        decrease: amount,
        new_total: remaining,
        timestamp: now,
    };
    let (settings, withdrawal_counter, withdrawal) = match open_delegate_vault(
        ctx.settings,
        ctx.withdrawal_counter,
        &ctx.delegator,
        &ctx.gateway.operator,
        amount,
        now,
        ctx.withdrawal_bump,
    ) {
        Err(e) => {
            return Err(e);
        },
        Ok(opened) => opened,
    };
    Ok(
        Outcome {
            accounts: DelegateWithdrawn {
                settings,
                gateway: ctx.gateway,
                delegation: ctx.delegation,
                withdrawal_counter,
                withdrawal,
            },
            transfers: Vec::new(),
            event,
        },
    )
}

/// Moves `amount` of delegated stake into a withdrawal: the vault, the counter
/// and the supply counters.
fn open_delegate_vault(
    settings: GatewaySettings,
    counter: WithdrawalCounter,
    owner: &Pubkey,
    gateway: &Pubkey,
    amount: u64,
    now: i64,
    bump: u8,
) -> (r: Result<(GatewaySettings, WithdrawalCounter, Withdrawal), GarError>)
    ensures
        match r {
            Err(e) => {
                &&& e == GarError::ArithmeticOverflow
                &&& lock_overflows(now, settings.withdrawal_period) || counter.next_id == u64::MAX
                    || settings.total_withdrawn + amount > u64::MAX
            },
            Ok((s, c, w)) => {
                &&& !lock_overflows(now, settings.withdrawal_period)
                &&& counter.next_id < u64::MAX
                &&& settings.total_withdrawn + amount <= u64::MAX
                &&& s == (GatewaySettings {
                    total_delegated: minus_or_zero(settings.total_delegated as int, amount as int) as u64,
                    total_withdrawn: (settings.total_withdrawn + amount) as u64,
                    ..settings
                })
                &&& c == (WithdrawalCounter { next_id: (counter.next_id + 1) as u64, ..counter })
                &&& w == delegate_vault(
                    *owner,
                    counter.next_id,
                    *gateway,
                    amount,
                    now,
                    settings.withdrawal_period,
                    bump,
                )
            },
        },
{
    let mut settings = settings;
    let mut counter = counter;
    let available_at: i64 = match now.checked_add(settings.withdrawal_period) {
        None => {
            return Err(GarError::ArithmeticOverflow);
        },
        Some(t) => t,
    };
    let withdrawal = Withdrawal {
        owner: *owner,
        withdrawal_id: counter.next_id,
        gateway: *gateway,
        amount,
        created_at: now,
        available_at,
        is_delegate: true,
        is_exit_vault: false,
        is_protected: false,
        bump,
        version: SchemaVersion::new(0, 0, 0),
    };
    counter.next_id = match counter.next_id.checked_add(1) {
        None => {
            return Err(GarError::ArithmeticOverflow);
        },
        Some(id) => id,
    };
    settings.total_delegated = settings.total_delegated.saturating_sub(amount);
    settings.total_withdrawn = match settings.total_withdrawn.checked_add(amount) {
        None => {
            return Err(GarError::ArithmeticOverflow);
        },
        Some(total) => total,
    };
    Ok((settings, counter, withdrawal))
}

/// The accounts of `close_empty_delegation`. The delegation's account is closed
/// and its rent returned to the delegator.
#[derive(Clone, Debug)]
pub struct CloseEmptyDelegation {
    pub gateway: Gateway,
    pub delegation: Delegation,
    pub delegator: Pubkey,
}

/// Why a delegation cannot be closed, if so.
pub open spec fn close_delegation_refusal(ctx: CloseEmptyDelegation) -> Option<GarError> {
    if ctx.delegation.amount != 0 {
        Some(GarError::InvalidAmount)
    } else if ctx.delegator != ctx.delegation.delegator {
        Some(GarError::NotDelegator)
    } else {
        None
    }
}

/// Closes a delegation that holds nothing. Anyone may do so.
pub fn close_empty_delegation(ctx: CloseEmptyDelegation, now: i64) -> (r: Result<
    Outcome<CloseEmptyDelegation, DelegationClosedEvent>,
    GarError,
>)
    ensures
        match r {
            Err(e) => close_delegation_refusal(ctx) == Some(e),
            Ok(o) => {
                &&& close_delegation_refusal(ctx) is None
                &&& o.accounts == (CloseEmptyDelegation {
                    delegation: Delegation {
                        reward_debt: ctx.gateway.cumulative_reward_per_token,
                        ..ctx.delegation
                    },
                    ..ctx
                })
                &&& o.transfers@.len() == 0
                &&& o.event == (DelegationClosedEvent {
                    delegator: ctx.delegation.delegator,
                    gateway: ctx.delegation.gateway,
                    timestamp: now,
                })
            },
        },
{
    let mut ctx = ctx;
    if ctx.delegation.amount != 0 {
        return Err(GarError::InvalidAmount);
    }
    if ctx.delegator != ctx.delegation.delegator {
        return Err(GarError::NotDelegator);
    }
    proof {
        lemma_nothing_pending_on_nothing(ctx.gateway.cumulative_reward_per_token, ctx.delegation);
    }
    settle_delegate_rewards(&mut ctx.gateway, &mut ctx.delegation);
    let event = DelegationClosedEvent {
        delegator: ctx.delegation.delegator,
        gateway: ctx.delegation.gateway,
        timestamp: now,
    };
    Ok(Outcome { accounts: ctx, transfers: Vec::new(), event })
}

/// The accounts of `claim_delegate_from_leaving_gateway`.
#[derive(Clone, Debug)]
pub struct ClaimDelegateFromLeavingGateway {
    pub settings: GatewaySettings,
    pub gateway: Gateway,
    pub delegation: Delegation,
    pub withdrawal_counter: WithdrawalCounter,
    /// The bump seed of the withdrawal to be opened.
    pub withdrawal_bump: u8,
    pub delegator: Pubkey,
}

/// Why a delegate's stake cannot be claimed from a leaving gateway, if so.
pub open spec fn claim_delegate_refusal(ctx: ClaimDelegateFromLeavingGateway, now: i64) -> Option<GarError> {
    let settled = settled_delegation(ctx.gateway.cumulative_reward_per_token, ctx.delegation);
    if ctx.gateway.status != GatewayStatus::Leaving {
        Some(GarError::GatewayNotJoined)
    } else if ctx.delegation.delegator != ctx.delegator {
        Some(GarError::NotDelegator)
    } else if ctx.delegation.amount == 0 {
        Some(GarError::InvalidAmount)
    } else if lock_overflows(now, ctx.settings.withdrawal_period) || ctx.withdrawal_counter.next_id == u64::MAX
        || ctx.settings.total_withdrawn + settled.amount > u64::MAX {
        Some(GarError::ArithmeticOverflow)
    } else {
        None
    }
}

/// The accounts once a delegate's stake has been claimed from a leaving gateway.
pub open spec fn claimed_from_leaving(ctx: ClaimDelegateFromLeavingGateway, now: i64) -> DelegateWithdrawn {
    let amount = settled_delegation(ctx.gateway.cumulative_reward_per_token, ctx.delegation).amount;
    decreased(
        DecreaseDelegateStake {
            settings: ctx.settings,
            gateway: ctx.gateway,
            delegation: ctx.delegation,
            withdrawal_counter: ctx.withdrawal_counter,
            withdrawal_bump: ctx.withdrawal_bump,
            delegator: ctx.delegator,
        },
        amount,
        now,
    )
}

/// Moves all that a delegate has staked with a leaving gateway into a withdrawal
/// of the delegate. Anyone may do so: the stake goes to nobody else.
pub fn claim_delegate_from_leaving_gateway(ctx: ClaimDelegateFromLeavingGateway, now: i64) -> (r: Result<
    Outcome<DelegateWithdrawn, DelegationEvent>,
    GarError,
>)
    ensures
        match r {
            Err(e) => claim_delegate_refusal(ctx, now) == Some(e),
            Ok(o) => {
                &&& claim_delegate_refusal(ctx, now) is None
                &&& o.accounts == claimed_from_leaving(ctx, now)
                &&& o.accounts.delegation.amount == 0
                &&& o.transfers@.len() == 0
                &&& o.event == (DelegationEvent {
                    delegator: ctx.delegator,
                    gateway: ctx.gateway.operator,
                    amount: 0,
                    total: 0,
                    timestamp: now,
                })
            },
        },
{
    let mut ctx = ctx;
    if ctx.gateway.status != GatewayStatus::Leaving {
        return Err(GarError::GatewayNotJoined);
    }
    if ctx.delegation.delegator != ctx.delegator {
        return Err(GarError::NotDelegator);
    }
    if ctx.delegation.amount == 0 {
        return Err(GarError::InvalidAmount);
    }
    settle_delegate_rewards(&mut ctx.gateway, &mut ctx.delegation);
    let amount: u64 = ctx.delegation.amount;
    ctx.gateway.total_delegated_stake = ctx.gateway.total_delegated_stake.saturating_sub(amount);
    ctx.delegation.amount = 0;
    let event = DelegationEvent {
        delegator: ctx.delegator,
        gateway: ctx.gateway.operator,
        amount: 0,
        total: 0,
        timestamp: now,
    };
    let (settings, withdrawal_counter, withdrawal) = match open_delegate_vault(
        ctx.settings,
        ctx.withdrawal_counter,
        &ctx.delegator,
        &ctx.gateway.operator,
        amount,
        now,
        ctx.withdrawal_bump,
    ) {
        Err(e) => {
            return Err(e);
        },
        Ok(opened) => opened,
    };
    Ok(
        Outcome {
            accounts: DelegateWithdrawn {
                settings,
                gateway: ctx.gateway,
                delegation: ctx.delegation,
                withdrawal_counter,
                withdrawal,
            },
            transfers: Vec::new(),
            event,
        },
    )
}

/// The accounts of `compound_delegation_rewards`.
#[derive(Clone, Debug)]
pub struct CompoundDelegationRewards {
    pub gateway: Gateway,
    pub delegation: Delegation,
    pub delegator: Pubkey,
}

/// Adds the pending rewards of a delegation to it.
pub fn compound_delegation_rewards(ctx: CompoundDelegationRewards, now: i64) -> (r: Result<
    Outcome<CompoundDelegationRewards, RewardsCompoundedEvent>,
    GarError,
>)
    ensures
        match r {
            Err(e) => ctx.delegation.delegator != ctx.delegator && e == GarError::NotDelegator,
            Ok(o) => {
                let settled = settled_delegation(ctx.gateway.cumulative_reward_per_token, ctx.delegation);
                &&& ctx.delegation.delegator == ctx.delegator
                &&& o.accounts == (CompoundDelegationRewards {
                    gateway: settled_gateway(ctx.gateway, ctx.delegation),
                    delegation: settled,
                    ..ctx
                })
                &&& o.transfers@.len() == 0
                &&& o.event == (RewardsCompoundedEvent {
                    delegator: ctx.delegation.delegator,
                    gateway: ctx.delegation.gateway,
                    compounded: (settled.amount - ctx.delegation.amount) as u64,
                    timestamp: now,
                })
            },
        },
{
    let mut ctx = ctx;
    if ctx.delegation.delegator != ctx.delegator {
        return Err(GarError::NotDelegator);
    }
    let before: u64 = ctx.delegation.amount;
    let delegator = ctx.delegation.delegator;
    let gateway = ctx.delegation.gateway;
    proof {
        crate::state::rewards::settling_only_adds(ctx.gateway, ctx.delegation);
    }
    settle_delegate_rewards(&mut ctx.gateway, &mut ctx.delegation);
    let compounded: u64 = ctx.delegation.amount.saturating_sub(before);
    Ok(
        Outcome {
            accounts: ctx,
            transfers: Vec::new(),
            event: RewardsCompoundedEvent { delegator, gateway, compounded, timestamp: now },
        },
    )
}

/// A token account as an instruction sees it.
#[derive(Clone, Copy, Debug)]
pub struct TokenAccountInfo {
    pub key: Pubkey,
    pub owner: Pubkey,
    pub mint: Pubkey,
}

/// The accounts of `redelegate_stake`.
#[derive(Clone, Debug)]
pub struct RedelegateStake {
    pub source_gateway: Gateway,
    pub target_gateway: Gateway,
    pub source_delegation: Delegation,
    /// The delegation to the target; without an amount if it was just opened.
    pub target_delegation: Delegation,
    /// The bump seed of that delegation's address.
    pub target_delegation_bump: u8,
    pub redelegation_record: RedelegationRecord,
    pub delegator_token_account: TokenAccountInfo,
    pub stake_token_account: TokenAccountInfo,
    pub protocol_token_account: TokenAccountInfo,
    pub settings: GatewaySettings,
    pub delegator: Pubkey,
    /// The allowlist entry, if it was passed.
    pub allowlist_entry: Option<EntryAccount>,
    pub program_id: Pubkey,
}

/// The fee for moving `amount`.
pub open spec fn redelegation_fee(record: RedelegationRecord, amount: u64, now: i64) -> int {
    amount * record.fee_rate(now, RATE_SCALE) / RATE_SCALE as int
}

/// The token accounts are those of the delegator, of the stake pool and of the
/// treasury.
pub open spec fn token_accounts_valid(ctx: RedelegateStake) -> bool {
    &&& ctx.delegator_token_account.owner == ctx.delegator
    &&& ctx.delegator_token_account.mint == ctx.settings.mint
    &&& ctx.stake_token_account.mint == ctx.settings.mint
    &&& ctx.stake_token_account.key == ctx.settings.stake_token_account
    &&& ctx.protocol_token_account.mint == ctx.settings.mint
    &&& ctx.protocol_token_account.key == ctx.settings.protocol_token_account
}

/// Why stake cannot be moved, if so.
pub open spec fn redelegate_refusal(
    ctx: RedelegateStake,
    amount: u64,
    now: i64,
    allow_address: Option<(Pubkey, u8)>,
) -> Option<Refusal> {
    let source = settled_delegation(
        ctx.source_gateway.cumulative_reward_per_token,
        ctx.source_delegation,
    );
    let target = settled_delegation(
        ctx.target_gateway.cumulative_reward_per_token,
        ctx.target_delegation,
    );
    let remaining = source.amount - amount;
    let net = amount - redelegation_fee(ctx.redelegation_record, amount, now);
    if ctx.source_delegation.delegator != ctx.delegator {
        Some(Refusal::Gar(GarError::NotDelegator))
    } else if !token_accounts_valid(ctx) {
        Some(Refusal::Gar(GarError::InvalidParameter))
    } else if amount == 0 {
        Some(Refusal::Gar(GarError::InvalidAmount))
    } else if ctx.source_gateway.operator == ctx.target_gateway.operator {
        Some(Refusal::Gar(GarError::RedelegateSameGateway))
    } else if ctx.target_gateway.status != GatewayStatus::Joined {
        Some(Refusal::Gar(GarError::GatewayNotJoined))
    } else if !ctx.target_gateway.settings.allow_delegated_staking {
        Some(Refusal::Gar(GarError::DelegationNotAllowed))
    } else if ctx.delegator == ctx.target_gateway.operator {
        Some(Refusal::Gar(GarError::CannotDelegateToSelf))
    } else if allowlist_refusal(
        ctx.target_gateway.settings.allowlist_enabled,
        ctx.target_delegation.amount,
        ctx.allowlist_entry,
        allow_address,
    ) is Some {
        allowlist_refusal(
            ctx.target_gateway.settings.allowlist_enabled,
            ctx.target_delegation.amount,
            ctx.allowlist_entry,
            allow_address,
        )
    } else if remaining < 0 {
        Some(Refusal::Gar(GarError::InsufficientStake))
    } else if remaining != 0 && remaining < ctx.source_gateway.settings.min_delegation_amount {
        Some(Refusal::Gar(GarError::DelegationBelowMinimum))
    } else if net <= 0 {
        Some(Refusal::Gar(GarError::InvalidAmount))
    } else if target.amount == 0 && net < ctx.target_gateway.settings.min_delegation_amount {
        Some(Refusal::Gar(GarError::DelegationBelowMinimum))
    } else if target.amount + net > u64::MAX || settled_stake(ctx.target_gateway, ctx.target_delegation) + net
        > u64::MAX || now + RedelegationRecord::FEE_RESET_INTERVAL > i64::MAX {
        Some(Refusal::Gar(GarError::ArithmeticOverflow))
    } else {
        None
    }
}

/// The accounts once stake has been moved.
pub open spec fn redelegated(ctx: RedelegateStake, amount: u64, now: i64) -> RedelegateStake {
    let source_gateway = settled_gateway(ctx.source_gateway, ctx.source_delegation);
    let source = settled_delegation(
        ctx.source_gateway.cumulative_reward_per_token,
        ctx.source_delegation,
    );
    let target_gateway = settled_gateway(ctx.target_gateway, ctx.target_delegation);
    let target = settled_delegation(
        ctx.target_gateway.cumulative_reward_per_token,
        ctx.target_delegation,
    );
    let fee = redelegation_fee(ctx.redelegation_record, amount, now);
    let net = amount - fee;
    let is_new = ctx.target_delegation.start_timestamp == 0;
    RedelegateStake {
        source_gateway: Gateway {
            total_delegated_stake: minus_or_zero(
                source_gateway.total_delegated_stake as int,
                amount as int,
            ) as u64,
            ..source_gateway
        },
        target_gateway: Gateway {
            total_delegated_stake: (target_gateway.total_delegated_stake + net) as u64,
            ..target_gateway
        },
        source_delegation: Delegation { amount: (source.amount - amount) as u64, ..source },
        target_delegation: Delegation {
            gateway: ctx.target_gateway.operator,
            delegator: ctx.delegator,
            amount: (target.amount + net) as u64,
            start_timestamp: if is_new {
                now
            } else {
                target.start_timestamp
            },
            bump: if is_new {
                ctx.target_delegation_bump
            } else {
                target.bump
            },
            ..target
        },
        redelegation_record: RedelegationRecord {
            delegator: ctx.delegator,
            redelegation_count: (ctx.redelegation_record.effective_count(now) + 1) as u32,
            last_redelegation_at: now,
            fee_reset_at: (now + RedelegationRecord::FEE_RESET_INTERVAL) as i64,
            ..ctx.redelegation_record
        },
        settings: GatewaySettings {
            total_delegated: minus_or_zero(ctx.settings.total_delegated as int, fee) as u64,
            ..ctx.settings
        },
        ..ctx
    }
}

/// The fee lies between nothing and sixty percent of the amount, and nothing is
/// charged while the count is zero.
proof fn lemma_fee_bounded(record: RedelegationRecord, amount: u64, now: i64)
    ensures
        0 <= redelegation_fee(record, amount, now) <= amount,
        record.fee_rate(now, RATE_SCALE) <= 600_000,
        0 <= record.fee_rate(now, RATE_SCALE),
{
    let rate: int = record.fee_rate(now, RATE_SCALE);
    lemma_share_bounded(rate, amount as int, RATE_SCALE as int);
}

/// The first redelegation since the last reset is free, and the fee never exceeds
/// sixty percent.
pub proof fn redelegation_fee_is_capped(record: RedelegationRecord, amount: u64, now: i64)
    ensures
        0 <= redelegation_fee(record, amount, now),
        redelegation_fee(record, amount, now) * 100 <= amount * 60,
        record.effective_count(now) == 0 ==> redelegation_fee(record, amount, now) == 0,
        now >= record.fee_reset_at ==> redelegation_fee(record, amount, now) == 0,
{
    lemma_fee_bounded(record, amount, now);
    let rate: int = record.fee_rate(now, RATE_SCALE);
    let a: int = amount as int;
    assert(a * rate <= a * 600_000) by (nonlinear_arith)
        requires
            rate <= 600_000,
            a >= 0,
    ;
    assert(a * 0 == 0);
}

/// Moves stake from one gateway to another, with the address of the delegate's
/// allowlist entry at the target given. The fee goes to the treasury.
pub fn redelegate_stake_at(ctx: RedelegateStake, amount: u64, now: i64, allow_address: Option<(Pubkey, u8)>) -> (r:
    Result<Outcome<RedelegateStake, RedelegationEvent>, Refusal>)
    requires
        10 * ctx.redelegation_record.effective_count(now) <= u32::MAX,
    ensures
        match r {
            Err(e) => redelegate_refusal(ctx, amount, now, allow_address) == Some(e),
            Ok(o) => {
                let fee = redelegation_fee(ctx.redelegation_record, amount, now);
                &&& redelegate_refusal(ctx, amount, now, allow_address) is None
                &&& o.accounts == redelegated(ctx, amount, now)
                &&& o.transfers@ == transfer_if_any(Holder::StakePool, Holder::Treasury, fee)
                &&& o.event == (RedelegationEvent {
                    delegator: ctx.delegator,
                    from_gateway: ctx.source_gateway.operator,
                    to_gateway: ctx.target_gateway.operator,
                    amount,
                    fee: fee as u64,
                    timestamp: now,
                })
            },
        },
{
    let mut ctx = ctx;
    if ctx.source_delegation.delegator != ctx.delegator {
        return Err(Refusal::Gar(GarError::NotDelegator));
    }
    if ctx.delegator_token_account.owner != ctx.delegator || ctx.delegator_token_account.mint
        != ctx.settings.mint {
        return Err(Refusal::Gar(GarError::InvalidParameter));
    }
    if ctx.stake_token_account.mint != ctx.settings.mint || ctx.stake_token_account.key
        != ctx.settings.stake_token_account {
        return Err(Refusal::Gar(GarError::InvalidParameter));
    }
    if ctx.protocol_token_account.mint != ctx.settings.mint || ctx.protocol_token_account.key
        != ctx.settings.protocol_token_account {
        return Err(Refusal::Gar(GarError::InvalidParameter));
    }
    if amount == 0 {
        return Err(Refusal::Gar(GarError::InvalidAmount));
    }
    if ctx.source_gateway.operator == ctx.target_gateway.operator {
        return Err(Refusal::Gar(GarError::RedelegateSameGateway));
    }
    if ctx.target_gateway.status != GatewayStatus::Joined {
        return Err(Refusal::Gar(GarError::GatewayNotJoined));
    }
    if !ctx.target_gateway.settings.allow_delegated_staking {
        return Err(Refusal::Gar(GarError::DelegationNotAllowed));
    }
    if ctx.delegator == ctx.target_gateway.operator {
        return Err(Refusal::Gar(GarError::CannotDelegateToSelf));
    }
    match check_allowlist(
        ctx.target_gateway.settings.allowlist_enabled,
        ctx.target_delegation.amount,
        &ctx.allowlist_entry,
        &allow_address,
    ) {
        Err(e) => {
            return Err(e);
        },
        Ok(()) => {},
    }
    settle_delegate_rewards(&mut ctx.source_gateway, &mut ctx.source_delegation);
    settle_delegate_rewards(&mut ctx.target_gateway, &mut ctx.target_delegation);
    if ctx.source_delegation.amount < amount {
        return Err(Refusal::Gar(GarError::InsufficientStake));
    }
    let remaining: u64 = ctx.source_delegation.amount - amount;
    if remaining != 0 && remaining < ctx.source_gateway.settings.min_delegation_amount {
        return Err(Refusal::Gar(GarError::DelegationBelowMinimum));
    }
    let fee_rate: u64 = ctx.redelegation_record.get_fee_rate(now, RATE_SCALE);
    proof {
        lemma_fee_bounded(ctx.redelegation_record, amount, now);
    }
    let fee: u64 = (mul_wide(amount, fee_rate) / RATE_SCALE as u128) as u64;
    let net_amount: u64 = amount.saturating_sub(fee);
    if net_amount == 0 {
        return Err(Refusal::Gar(GarError::InvalidAmount));
    }
    if ctx.target_delegation.amount == 0 && net_amount < ctx.target_gateway.settings.min_delegation_amount {
        return Err(Refusal::Gar(GarError::DelegationBelowMinimum));
    }
    ctx.source_delegation.amount = remaining;
    ctx.source_gateway.total_delegated_stake = ctx.source_gateway.total_delegated_stake.saturating_sub(amount);
    ctx.target_delegation.gateway = ctx.target_gateway.operator;
    ctx.target_delegation.delegator = ctx.delegator;
    ctx.target_delegation.amount = match ctx.target_delegation.amount.checked_add(net_amount) {
        None => {
            return Err(Refusal::Gar(GarError::ArithmeticOverflow));
        },
        Some(sum) => sum,
    };
    if ctx.target_delegation.start_timestamp == 0 {
        ctx.target_delegation.start_timestamp = now;
        ctx.target_delegation.reward_debt = ctx.target_gateway.cumulative_reward_per_token;
        ctx.target_delegation.bump = ctx.target_delegation_bump;
    }
    ctx.target_gateway.total_delegated_stake = match ctx.target_gateway.total_delegated_stake.checked_add(
        net_amount,
    ) {
        None => {
            return Err(Refusal::Gar(GarError::ArithmeticOverflow));
        },
        Some(sum) => sum,
    };
    if now >= ctx.redelegation_record.fee_reset_at {
        ctx.redelegation_record.redelegation_count = 1;
    } else {
        ctx.redelegation_record.redelegation_count = ctx.redelegation_record.redelegation_count + 1;
    }
    ctx.redelegation_record.delegator = ctx.delegator;
    ctx.redelegation_record.last_redelegation_at = now;
    ctx.redelegation_record.fee_reset_at = match now.checked_add(RedelegationRecord::FEE_RESET_INTERVAL) {
        None => {
            return Err(Refusal::Gar(GarError::ArithmeticOverflow));
        },
        Some(t) => t,
    };
    let mut transfers: Vec<TokenTransfer> = Vec::new();
    if fee > 0 {
        transfers.push(TokenTransfer { from: Holder::StakePool, to: Holder::Treasury, amount: fee });
        ctx.settings.total_delegated = ctx.settings.total_delegated.saturating_sub(fee);
    }
    let event = RedelegationEvent {
        delegator: ctx.delegator,
        from_gateway: ctx.source_gateway.operator,
        to_gateway: ctx.target_gateway.operator,
        amount,
        fee,
        timestamp: now,
    };
    Ok(Outcome { accounts: ctx, transfers, event })
}

/// Moves stake from one gateway to another: `redelegate_stake_at` with the derived
/// address.
pub fn redelegate_stake(ctx: RedelegateStake, amount: u64, now: i64) -> (r: Result<
    Outcome<RedelegateStake, RedelegationEvent>,
    Refusal,
>)
    requires
        10 * ctx.redelegation_record.effective_count(now) <= u32::MAX,
    ensures
        ({
            let allow_address = allowlist_pda(ctx.target_gateway.operator, ctx.delegator, ctx.program_id);
            match r {
                Err(e) => redelegate_refusal(ctx, amount, now, allow_address) == Some(e),
                Ok(o) => {
                    let fee = redelegation_fee(ctx.redelegation_record, amount, now);
                    &&& redelegate_refusal(ctx, amount, now, allow_address) is None
                    &&& o.accounts == redelegated(ctx, amount, now)
                    &&& o.transfers@ == transfer_if_any(Holder::StakePool, Holder::Treasury, fee)
                    &&& o.event == (RedelegationEvent {
                        delegator: ctx.delegator,
                        from_gateway: ctx.source_gateway.operator,
                        to_gateway: ctx.target_gateway.operator,
                        amount,
                        fee: fee as u64,
                        timestamp: now,
                    })
                },
            }
        }),
{
    let allow_address = allowlist_address(&ctx.target_gateway.operator, &ctx.delegator, &ctx.program_id);
    redelegate_stake_at(ctx, amount, now, allow_address)
}

/// Taking stake back moves it without loss: what leaves the delegation is what the
/// withdrawal holds, the delegation is left empty or at the gateway's minimum at
/// least, and the supply counters move by as much wherever they covered it.
pub proof fn decrease_conserves_stake(ctx: DecreaseDelegateStake, amount: u64, now: i64)
    requires
        decrease_refusal(ctx, amount, now) is None,
    ensures
        ({
            let after = decreased(ctx, amount, now);
            let settled = settled_delegation(ctx.gateway.cumulative_reward_per_token, ctx.delegation);
            &&& after.delegation.amount + after.withdrawal.amount == settled.amount
            &&& after.delegation.amount == 0 || after.delegation.amount
                >= ctx.gateway.settings.min_delegation_amount
            &&& after.withdrawal.owner == ctx.delegation.delegator
            &&& amount <= ctx.settings.total_delegated ==> after.settings.total_delegated
                + after.settings.total_withdrawn == ctx.settings.total_delegated + ctx.settings.total_withdrawn
        }),
{
}

/// Moving stake loses none: what leaves the one delegation reaches the other or,
/// as the fee, the treasury, and the gateways' totals and the counter of delegated
/// tokens move by as much wherever they covered it.
pub proof fn redelegation_conserves_stake(
    ctx: RedelegateStake,
    amount: u64,
    now: i64,
    allow_address: Option<(Pubkey, u8)>,
)
    requires
        redelegate_refusal(ctx, amount, now, allow_address) is None,
    ensures
        ({
            let after = redelegated(ctx, amount, now);
            let source = settled_delegation(
                ctx.source_gateway.cumulative_reward_per_token,
                ctx.source_delegation,
            );
            let target = settled_delegation(
                ctx.target_gateway.cumulative_reward_per_token,
                ctx.target_delegation,
            );
            let fee = redelegation_fee(ctx.redelegation_record, amount, now);
            &&& source.amount + target.amount == after.source_delegation.amount + after.target_delegation.amount
                + fee
            &&& after.source_delegation.amount == 0 || after.source_delegation.amount
                >= ctx.source_gateway.settings.min_delegation_amount
            &&& amount <= settled_stake(ctx.source_gateway, ctx.source_delegation) ==> settled_stake(
                ctx.source_gateway,
                ctx.source_delegation,
            ) + settled_stake(ctx.target_gateway, ctx.target_delegation)
                == after.source_gateway.total_delegated_stake + after.target_gateway.total_delegated_stake + fee
            &&& fee <= ctx.settings.total_delegated ==> after.settings.total_delegated
                == ctx.settings.total_delegated - fee
        }),
{
    lemma_fee_bounded(ctx.redelegation_record, amount, now);
    crate::state::rewards::settling_only_adds(ctx.source_gateway, ctx.source_delegation);
    crate::state::rewards::settling_only_adds(ctx.target_gateway, ctx.target_delegation);
}

/// Whether an allowlist lets a delegate in: it is off, or the delegate has stake
/// already, or brings the entry that lies at the address given.
pub open spec fn let_in(gateway: Gateway, staked: u64, supplied: Option<EntryAccount>, expected: Option<(Pubkey, u8)>) -> bool {
    ||| !gateway.settings.allowlist_enabled
    ||| staked > 0
    ||| supplied is Some && expected is Some && supplied->Some_0.owned && supplied->Some_0.key == expected->Some_0.0
}

/// Staking moves the amount from the delegate's wallet into the stake pool, and puts
/// it on the delegation, on the gateway's delegated stake and on the counter of
/// delegated tokens, with the rewards pending until then added first.
pub proof fn staking_adds_what_is_paid_in(
    ctx: DelegateStake,
    amount: u64,
    now: i64,
    allow_address: Option<(Pubkey, u8)>,
    r: Result<Outcome<DelegateStake, DelegationEvent>, Refusal>,
)
    requires
        call_ensures(delegate_stake_at, (ctx, amount, now, allow_address), r),
    ensures
        ({
            let (s, g, d) = (ctx.settings, ctx.gateway, ctx.delegation);
            let c = g.cumulative_reward_per_token;
            match r {
                Err(e) => {
                    &&& e == Refusal::Gar(GarError::InvalidParameter) ==> ctx.stake_token_account != s.stake_token_account
                    &&& e == Refusal::Gar(GarError::InvalidAmount) ==> amount == 0
                    &&& e == Refusal::Gar(GarError::DelegationNotAllowed) ==> !g.settings.allow_delegated_staking
                    &&& e == Refusal::Gar(GarError::DelegationBelowMinimum) ==> amount < g.settings.min_delegation_amount
                    &&& e == Refusal::Gar(GarError::GatewayNotJoined) ==> g.status != GatewayStatus::Joined
                    &&& e == Refusal::Gar(GarError::CannotDelegateToSelf) ==> ctx.delegator == g.operator
                    &&& e == Refusal::Gar(GarError::DelegateNotAllowed) ==> !let_in(
                        g,
                        d.amount,
                        ctx.allowlist_entry,
                        allow_address,
                    )
                    &&& e == Refusal::NoProgramAddress ==> allow_address is None
                    &&& ctx.stake_token_account != s.stake_token_account || amount == 0
                        || !g.settings.allow_delegated_staking || amount < g.settings.min_delegation_amount || g.status
                        != GatewayStatus::Joined || ctx.delegator == g.operator || !let_in(
                        g,
                        d.amount,
                        ctx.allowlist_entry,
                        allow_address,
                    ) || e == Refusal::Gar(GarError::ArithmeticOverflow)
                    &&& e == Refusal::Gar(GarError::ArithmeticOverflow) && d.reward_debt == c ==> d.amount + amount > u64::MAX
                        || g.total_delegated_stake + amount > u64::MAX || s.total_delegated + amount > u64::MAX
                },
                Ok(o) => {
                    let (s2, g2, d2) = (o.accounts.settings, o.accounts.gateway, o.accounts.delegation);
                    &&& ctx.stake_token_account == s.stake_token_account
                    &&& amount > 0
                    &&& amount >= g.settings.min_delegation_amount
                    &&& g.settings.allow_delegated_staking
                    &&& g.status == GatewayStatus::Joined
                    &&& ctx.delegator != g.operator
                    &&& let_in(g, d.amount, ctx.allowlist_entry, allow_address)
                    &&& o.transfers@ == seq![TokenTransfer { from: Holder::Wallet, to: Holder::StakePool, amount }]
                    &&& d2.amount >= d.amount + amount
                    &&& d2.amount - amount < u64::MAX ==> gains(d.amount, d.reward_debt, c, d2.amount - amount - d.amount)
                    &&& d2.gateway == g.operator
                    &&& d2.delegator == ctx.delegator
                    &&& d2.reward_debt == c
                    &&& d2.version == d.version
                    &&& d.amount == 0 ==> d2.amount == amount && d2.start_timestamp == now && d2.bump == ctx.delegation_bump
                    &&& d.amount > 0 ==> d2.start_timestamp == d.start_timestamp && d2.bump == d.bump
                    &&& g2 == (Gateway { total_delegated_stake: g2.total_delegated_stake, ..g })
                    &&& g2.total_delegated_stake - amount < u64::MAX ==> gains(
                        d.amount,
                        d.reward_debt,
                        c,
                        g2.total_delegated_stake - amount - g.total_delegated_stake,
                    )
                    &&& s2 == (GatewaySettings { total_delegated: s2.total_delegated, ..s })
                    &&& s2.total_delegated == s.total_delegated + amount
                    &&& o.event.delegator == ctx.delegator
                    &&& o.event.gateway == g.operator
                    &&& o.event.amount == amount
                    &&& o.event.total == d2.amount
                    &&& o.event.timestamp == now
                },
            }
        }),
{
    lemma_settled_gains(ctx.gateway, ctx.delegation);
}

/// `delegate_stake` goes by the allowlist entry of the delegate at the gateway.
pub proof fn staking_goes_by_the_delegates_own_entry(
    ctx: DelegateStake,
    amount: u64,
    now: i64,
    at: Result<Outcome<DelegateStake, DelegationEvent>, Refusal>,
    r: Result<Outcome<DelegateStake, DelegationEvent>, Refusal>,
)
    requires
        call_ensures(
            delegate_stake_at,
            (ctx, amount, now, allowlist_pda(ctx.gateway.operator, ctx.delegator, ctx.program_id)),
            at,
        ),
        call_ensures(delegate_stake, (ctx, amount, now), r),
    ensures
        match r {
            Err(e) => at == Err::<Outcome<DelegateStake, DelegationEvent>, Refusal>(e),
            Ok(o) => at matches Ok(o2) && o.accounts == o2.accounts && o.transfers@ == o2.transfers@ && o.event
                == o2.event,
        },
{
}

/// Taking stake back moves exactly the amount asked for into a withdrawal of the
/// delegate, and leaves nothing, or at least the gateway's minimum.
pub proof fn decrease_moves_stake_into_a_withdrawal(
    ctx: DecreaseDelegateStake,
    amount: u64,
    now: i64,
    r: Result<Outcome<DelegateWithdrawn, DelegationDecreasedEvent>, GarError>,
)
    requires
        call_ensures(decrease_delegate_stake, (ctx, amount, now), r),
    ensures
        r matches Ok(o) ==> {
            let (settings, gateway, delegation, counter) = (
                ctx.settings,
                ctx.gateway,
                ctx.delegation,
                ctx.withdrawal_counter,
            );
            let after = o.accounts;
            let (s2, g2, d2, w) = (after.settings, after.gateway, after.delegation, after.withdrawal);
            let c = gateway.cumulative_reward_per_token;
            &&& ctx.delegator == ctx.delegation.delegator
            &&& amount > 0
            &&& o.accounts.withdrawal.amount == amount
            &&& d2.amount == 0 || d2.amount >= ctx.gateway.settings.min_delegation_amount
            &&& d2.amount + w.amount >= delegation.amount
            &&& d2.amount + w.amount < u64::MAX ==> gains(
                delegation.amount,
                delegation.reward_debt,
                c,
                d2.amount + w.amount - delegation.amount,
            )
            &&& d2 == (Delegation { amount: d2.amount, reward_debt: c, ..delegation })
            &&& w.owner == ctx.delegator
            &&& w.owner == delegation.delegator
            &&& w.gateway == gateway.operator
            &&& w.withdrawal_id == counter.next_id
            &&& w.created_at == now
            &&& w.available_at == now + settings.withdrawal_period
            &&& w.is_delegate && !w.is_exit_vault && !w.is_protected
            &&& w.bump == ctx.withdrawal_bump
            &&& w.version.major == 0 && w.version.minor == 0 && w.version.patch == 0
            &&& after.withdrawal_counter.next_id == counter.next_id + 1
            &&& after.withdrawal_counter == (WithdrawalCounter { next_id: after.withdrawal_counter.next_id, ..counter })
            &&& g2 == (Gateway { total_delegated_stake: g2.total_delegated_stake, ..gateway })
            &&& g2.total_delegated_stake > 0 && g2.total_delegated_stake + w.amount < u64::MAX ==> gains(
                delegation.amount,
                delegation.reward_debt,
                c,
                g2.total_delegated_stake + w.amount - gateway.total_delegated_stake,
            )
            &&& delegation.reward_debt == c ==> falls_by(
                gateway.total_delegated_stake,
                g2.total_delegated_stake,
                w.amount as int,
            )
            &&& s2 == (GatewaySettings {
                total_delegated: s2.total_delegated,
                total_withdrawn: s2.total_withdrawn,
                ..settings
            })
            &&& falls_by(settings.total_delegated, s2.total_delegated, w.amount as int)
            &&& s2.total_withdrawn == settings.total_withdrawn + w.amount
            &&& o.transfers@.len() == 0
            &&& o.event.delegator == ctx.delegator
            &&& o.event.gateway == ctx.gateway.operator
            &&& o.event.decrease == amount
            &&& o.event.new_total == d2.amount
            &&& o.event.timestamp == now
        },
        r matches Err(e) ==> match e {
            GarError::NotDelegator => ctx.delegator != ctx.delegation.delegator,
            GarError::InvalidAmount => amount == 0,
            GarError::InsufficientStake => ctx.delegation.amount < amount,
            GarError::DelegationBelowMinimum => ctx.delegation.amount - amount
                < ctx.gateway.settings.min_delegation_amount,
            GarError::ArithmeticOverflow => {
                ||| now + ctx.settings.withdrawal_period > i64::MAX
                ||| now + ctx.settings.withdrawal_period < i64::MIN
                ||| ctx.withdrawal_counter.next_id == u64::MAX
                ||| ctx.settings.total_withdrawn + amount > u64::MAX
            },
            _ => false,
        },
        ctx.delegator == ctx.delegation.delegator && 0 < amount <= ctx.delegation.amount && ctx.delegation.amount
            - amount >= ctx.gateway.settings.min_delegation_amount && i64::MIN <= now
            + ctx.settings.withdrawal_period <= i64::MAX && ctx.withdrawal_counter.next_id < u64::MAX
            && ctx.settings.total_withdrawn + amount <= u64::MAX ==> r is Ok,
{
    lemma_settled_gains(ctx.gateway, ctx.delegation);
}

/// What a delegate took back can be claimed by the delegate, in full, from the end
/// of the withdrawal period on, and not before.
pub proof fn delegate_withdrawal_is_locked_for_the_period(
    ctx: DecreaseDelegateStake,
    amount: u64,
    now: i64,
    o: Outcome<DelegateWithdrawn, DelegationDecreasedEvent>,
    claim: ClaimWithdrawal,
    t: i64,
    r: Result<Outcome<ClaimWithdrawal, WithdrawalClaimedEvent>, GarError>,
)
    requires
        call_ensures(decrease_delegate_stake, (ctx, amount, now), Ok::<_, GarError>(o)),
        claim.withdrawal == o.accounts.withdrawal,
        claim.owner == ctx.delegator,
        claim.stake_token_account == claim.settings.stake_token_account,
        call_ensures(claim_withdrawal, (claim, t), r),
    ensures
        t < now + ctx.settings.withdrawal_period <==> r == Err::<
            Outcome<ClaimWithdrawal, WithdrawalClaimedEvent>,
            GarError,
        >(GarError::WithdrawalNotReady),
        t >= now + ctx.settings.withdrawal_period <==> r is Ok,
        r matches Ok(paid) ==> paid.transfers@ == seq![
            TokenTransfer { from: Holder::StakePool, to: Holder::Wallet, amount },
        ],
{
}

/// From a leaving gateway all of a delegate's stake goes into a withdrawal of the
/// delegate, whoever asks for it, and nothing is left staked.
pub proof fn claim_from_leaving_gateway_takes_all(
    ctx: ClaimDelegateFromLeavingGateway,
    now: i64,
    r: Result<Outcome<DelegateWithdrawn, DelegationEvent>, GarError>,
)
    requires
        call_ensures(claim_delegate_from_leaving_gateway, (ctx, now), r),
    ensures
        r matches Ok(o) ==> {
            let (settings, gateway, delegation, counter) = (
                ctx.settings,
                ctx.gateway,
                ctx.delegation,
                ctx.withdrawal_counter,
            );
            let after = o.accounts;
            let (s2, g2, d2, w) = (after.settings, after.gateway, after.delegation, after.withdrawal);
            let c = gateway.cumulative_reward_per_token;
            &&& ctx.gateway.status == GatewayStatus::Leaving
            &&& ctx.delegator == ctx.delegation.delegator
            &&& ctx.delegation.amount > 0
            &&& o.accounts.delegation.amount == 0
            &&& d2.amount + w.amount >= delegation.amount
            &&& d2.amount + w.amount < u64::MAX ==> gains(
                delegation.amount,
                delegation.reward_debt,
                c,
                d2.amount + w.amount - delegation.amount,
            )
            &&& d2 == (Delegation { amount: d2.amount, reward_debt: c, ..delegation })
            &&& w.owner == ctx.delegator
            &&& w.owner == delegation.delegator
            &&& w.gateway == gateway.operator
            &&& w.withdrawal_id == counter.next_id
            &&& w.created_at == now
            &&& w.available_at == now + settings.withdrawal_period
            &&& w.is_delegate && !w.is_exit_vault && !w.is_protected
            &&& w.bump == ctx.withdrawal_bump
            &&& w.version.major == 0 && w.version.minor == 0 && w.version.patch == 0
            &&& after.withdrawal_counter.next_id == counter.next_id + 1
            &&& after.withdrawal_counter == (WithdrawalCounter { next_id: after.withdrawal_counter.next_id, ..counter })
            &&& g2 == (Gateway { total_delegated_stake: g2.total_delegated_stake, ..gateway })
            &&& g2.total_delegated_stake > 0 && g2.total_delegated_stake + w.amount < u64::MAX ==> gains(
                delegation.amount,
                delegation.reward_debt,
                c,
                g2.total_delegated_stake + w.amount - gateway.total_delegated_stake,
            )
            &&& delegation.reward_debt == c ==> falls_by(
                gateway.total_delegated_stake,
                g2.total_delegated_stake,
                w.amount as int,
            )
            &&& s2 == (GatewaySettings {
                total_delegated: s2.total_delegated,
                total_withdrawn: s2.total_withdrawn,
                ..settings
            })
            &&& falls_by(settings.total_delegated, s2.total_delegated, w.amount as int)
            &&& s2.total_withdrawn == settings.total_withdrawn + w.amount
            &&& o.transfers@.len() == 0
            &&& o.event.delegator == ctx.delegator
            &&& o.event.gateway == ctx.gateway.operator
            &&& o.event.amount == 0
            &&& o.event.total == 0
            &&& o.event.timestamp == now
        },
        r matches Err(e) ==> match e {
            GarError::GatewayNotJoined => ctx.gateway.status != GatewayStatus::Leaving,
            GarError::NotDelegator => ctx.delegator != ctx.delegation.delegator,
            GarError::InvalidAmount => ctx.delegation.amount == 0,
            GarError::ArithmeticOverflow => ctx.delegation.reward_debt == ctx.gateway.cumulative_reward_per_token ==> {
                ||| now + ctx.settings.withdrawal_period > i64::MAX
                ||| now + ctx.settings.withdrawal_period < i64::MIN
                ||| ctx.withdrawal_counter.next_id == u64::MAX
                ||| ctx.settings.total_withdrawn + ctx.delegation.amount > u64::MAX
            },
            _ => false,
        },
{
    lemma_settled_gains(ctx.gateway, ctx.delegation);
}

/// What was claimed from a leaving gateway is locked for the withdrawal period like
/// any other withdrawal.
pub proof fn claim_from_leaving_gateway_is_locked_for_the_period(
    ctx: ClaimDelegateFromLeavingGateway,
    now: i64,
    o: Outcome<DelegateWithdrawn, DelegationEvent>,
    claim: ClaimWithdrawal,
    t: i64,
    r: Result<Outcome<ClaimWithdrawal, WithdrawalClaimedEvent>, GarError>,
)
    requires
        call_ensures(claim_delegate_from_leaving_gateway, (ctx, now), Ok::<_, GarError>(o)),
        claim.withdrawal == o.accounts.withdrawal,
        claim.owner == ctx.delegator,
        claim.stake_token_account == claim.settings.stake_token_account,
        call_ensures(claim_withdrawal, (claim, t), r),
    ensures
        t < now + ctx.settings.withdrawal_period <==> r == Err::<
            Outcome<ClaimWithdrawal, WithdrawalClaimedEvent>,
            GarError,
        >(GarError::WithdrawalNotReady),
        t >= now + ctx.settings.withdrawal_period <==> r is Ok,
{
}

/// Only an empty delegation can be closed, and its rent goes to nobody but its
/// delegator.
pub proof fn only_an_empty_delegation_is_closed(
    ctx: CloseEmptyDelegation,
    now: i64,
    r: Result<Outcome<CloseEmptyDelegation, DelegationClosedEvent>, GarError>,
)
    requires
        call_ensures(close_empty_delegation, (ctx, now), r),
    ensures
        r is Ok <==> ctx.delegation.amount == 0 && ctx.delegator == ctx.delegation.delegator,
        r matches Err(e) ==> match e {
            GarError::InvalidAmount => ctx.delegation.amount != 0,
            GarError::NotDelegator => ctx.delegator != ctx.delegation.delegator,
            _ => false,
        },
        r matches Ok(o) ==> {
            &&& o.accounts.gateway == ctx.gateway
            &&& o.accounts.delegation.amount == 0
            &&& o.transfers@.len() == 0
            &&& o.event.delegator == ctx.delegation.delegator
            &&& o.event.gateway == ctx.delegation.gateway
            &&& o.event.timestamp == now
        },
{
}

/// Compounding adds to the delegation, and to the gateway's delegated stake, its part
/// of what the accumulator has risen, and says how much that was. Only the delegator
/// may ask for it, and no tokens move.
pub proof fn compounding_adds_the_part_of_the_rise(
    ctx: CompoundDelegationRewards,
    now: i64,
    r: Result<Outcome<CompoundDelegationRewards, RewardsCompoundedEvent>, GarError>,
)
    requires
        call_ensures(compound_delegation_rewards, (ctx, now), r),
    ensures
        r is Ok <==> ctx.delegator == ctx.delegation.delegator,
        r matches Err(e) ==> e == GarError::NotDelegator,
        r matches Ok(o) ==> {
            let (g, d) = (ctx.gateway, ctx.delegation);
            let (g2, d2) = (o.accounts.gateway, o.accounts.delegation);
            let c = g.cumulative_reward_per_token;
            &&& d2 == (Delegation { amount: d2.amount, reward_debt: c, ..d })
            &&& g2 == (Gateway { total_delegated_stake: g2.total_delegated_stake, ..g })
            &&& d2.amount >= d.amount
            &&& d2.amount < u64::MAX ==> gains(d.amount, d.reward_debt, c, d2.amount - d.amount)
            &&& g2.total_delegated_stake < u64::MAX ==> gains(
                d.amount,
                d.reward_debt,
                c,
                g2.total_delegated_stake - g.total_delegated_stake,
            )
            &&& o.transfers@.len() == 0
            &&& o.event.delegator == d.delegator
            &&& o.event.gateway == d.gateway
            &&& o.event.compounded == d2.amount - d.amount
            &&& o.event.timestamp == now
        },
{
    lemma_settled_gains(ctx.gateway, ctx.delegation);
}

/// The number of redelegations that the fee goes by is that since the last reset.
proof fn lemma_fee_by_count(record: RedelegationRecord, amount: u64, now: i64)
    ensures
        ({
            let fee = redelegation_fee(record, amount, now);
            &&& now >= record.fee_reset_at ==> fee == 0
            &&& now < record.fee_reset_at && record.redelegation_count <= 6 ==> is_part(
                fee,
                amount as int,
                record.redelegation_count as int,
                10,
            )
            &&& now < record.fee_reset_at && record.redelegation_count >= 6 ==> is_part(fee, amount as int, 6, 10)
            &&& 0 <= fee <= amount
        }),
{
    lemma_fee_bounded(record, amount, now);
    redelegation_fee_is_capped(record, amount, now);
    let a: int = amount as int;
    let n: int = if record.redelegation_count <= 6 {
        record.redelegation_count as int
    } else {
        6
    };
    if now < record.fee_reset_at {
        assert(record.fee_rate(now, RATE_SCALE) == n * 100_000);
        lemma_quotient_is_part(a, n * 100_000, 1_000_000);
        assert(a * (n * 100_000) == (a * n) * 100_000) by (nonlinear_arith);
    }
}

/// Moving stake takes it off the one delegation and puts it, less the fee, on the
/// other. The fee goes to the treasury: nothing for the first redelegation since the
/// last reset, ten percent more for each one after, sixty at most.
pub proof fn redelegation_moves_stake_less_the_fee(
    ctx: RedelegateStake,
    amount: u64,
    now: i64,
    allow_address: Option<(Pubkey, u8)>,
    r: Result<Outcome<RedelegateStake, RedelegationEvent>, Refusal>,
)
    requires
        10 * ctx.redelegation_record.effective_count(now) <= u32::MAX,
        call_ensures(redelegate_stake_at, (ctx, amount, now, allow_address), r),
    ensures
        ({
            let (from, to) = (ctx.source_gateway, ctx.target_gateway);
            let (d, t) = (ctx.source_delegation, ctx.target_delegation);
            let record = ctx.redelegation_record;
            let s = ctx.settings;
            match r {
                Err(e) => {
                    &&& e == Refusal::Gar(GarError::NotDelegator) ==> ctx.delegator != d.delegator
                    &&& e == Refusal::Gar(GarError::RedelegateSameGateway) ==> from.operator == to.operator
                    &&& e == Refusal::Gar(GarError::GatewayNotJoined) ==> to.status != GatewayStatus::Joined
                    &&& e == Refusal::Gar(GarError::DelegationNotAllowed) ==> !to.settings.allow_delegated_staking
                    &&& e == Refusal::Gar(GarError::CannotDelegateToSelf) ==> ctx.delegator == to.operator
                    &&& e == Refusal::Gar(GarError::DelegateNotAllowed) ==> !let_in(
                        to,
                        t.amount,
                        ctx.allowlist_entry,
                        allow_address,
                    )
                    &&& e == Refusal::Gar(GarError::InsufficientStake) ==> d.amount < amount
                    &&& e != Refusal::WrongAccountType
                    // With nothing pending, and to a target where there is stake already or the fee is
                    // nothing, stake is only refused for a cause.
                    &&& d.reward_debt == from.cumulative_reward_per_token && t.reward_debt
                        == to.cumulative_reward_per_token ==> {
                        ||| ctx.delegator != d.delegator
                        ||| ctx.delegator_token_account.owner != ctx.delegator
                        ||| ctx.delegator_token_account.mint != s.mint
                        ||| ctx.stake_token_account.mint != s.mint
                        ||| ctx.stake_token_account.key != s.stake_token_account
                        ||| ctx.protocol_token_account.mint != s.mint
                        ||| ctx.protocol_token_account.key != s.protocol_token_account
                        ||| from.operator == to.operator
                        ||| to.status != GatewayStatus::Joined
                        ||| !to.settings.allow_delegated_staking
                        ||| ctx.delegator == to.operator
                        ||| !let_in(to, t.amount, ctx.allowlist_entry, allow_address)
                        ||| amount == 0 || d.amount < amount
                        ||| 0 < d.amount - amount < from.settings.min_delegation_amount
                        ||| t.amount == 0 && (amount < to.settings.min_delegation_amount || now < record.fee_reset_at)
                        ||| t.amount + amount > u64::MAX || to.total_delegated_stake + amount > u64::MAX
                        ||| now + 604_800 > i64::MAX
                    }
                },
                Ok(o) => {
                    let (from2, to2) = (o.accounts.source_gateway, o.accounts.target_gateway);
                    let (d2, t2) = (o.accounts.source_delegation, o.accounts.target_delegation);
                    let record2 = o.accounts.redelegation_record;
                    let s2 = o.accounts.settings;
                    let fee = o.event.fee;
                    let net = amount - fee;
                    &&& ctx.delegator == d.delegator
                    &&& ctx.delegator_token_account.owner == ctx.delegator
                    &&& ctx.delegator_token_account.mint == s.mint
                    &&& ctx.stake_token_account.mint == s.mint
                    &&& ctx.stake_token_account.key == s.stake_token_account
                    &&& ctx.protocol_token_account.mint == s.mint
                    &&& ctx.protocol_token_account.key == s.protocol_token_account
                    &&& from.operator != to.operator
                    &&& to.status == GatewayStatus::Joined
                    &&& to.settings.allow_delegated_staking
                    &&& ctx.delegator != to.operator
                    &&& let_in(to, t.amount, ctx.allowlist_entry, allow_address)
                    &&& amount > fee
                    // The fee: nothing once it has been reset, ten percent per redelegation since, sixty at most.
                    &&& now >= record.fee_reset_at ==> fee == 0
                    &&& now < record.fee_reset_at && record.redelegation_count <= 6 ==> is_part(
                        fee as int,
                        amount as int,
                        record.redelegation_count as int,
                        10,
                    )
                    &&& now < record.fee_reset_at && record.redelegation_count >= 6 ==> is_part(
                        fee as int,
                        amount as int,
                        6,
                        10,
                    )
                    &&& fee == 0 ==> o.transfers@.len() == 0
                    &&& fee > 0 ==> o.transfers@ == seq![
                        TokenTransfer { from: Holder::StakePool, to: Holder::Treasury, amount: fee },
                    ]
                    // What leaves the source arrives at the target, less the fee.
                    &&& d2.amount + amount < u64::MAX ==> gains(
                        d.amount,
                        d.reward_debt,
                        from.cumulative_reward_per_token,
                        d2.amount + amount - d.amount,
                    )
                    &&& d2.amount == 0 || d2.amount >= from.settings.min_delegation_amount
                    &&& d2 == (Delegation { amount: d2.amount, reward_debt: from.cumulative_reward_per_token, ..d })
                    &&& t2.amount - net < u64::MAX ==> gains(
                        t.amount,
                        t.reward_debt,
                        to.cumulative_reward_per_token,
                        t2.amount - net - t.amount,
                    )
                    &&& t2.amount >= to.settings.min_delegation_amount || t.amount > 0
                    &&& t2.gateway == to.operator
                    &&& t2.delegator == ctx.delegator
                    &&& t2.reward_debt == to.cumulative_reward_per_token
                    &&& t2.version == t.version
                    &&& t.start_timestamp == 0 ==> t2.start_timestamp == now && t2.bump == ctx.target_delegation_bump
                    &&& t.start_timestamp != 0 ==> t2.start_timestamp == t.start_timestamp && t2.bump == t.bump
                    &&& from2 == (Gateway { total_delegated_stake: from2.total_delegated_stake, ..from })
                    &&& to2 == (Gateway { total_delegated_stake: to2.total_delegated_stake, ..to })
                    &&& from2.total_delegated_stake > 0 && from2.total_delegated_stake + amount < u64::MAX ==> gains(
                        d.amount,
                        d.reward_debt,
                        from.cumulative_reward_per_token,
                        from2.total_delegated_stake + amount - from.total_delegated_stake,
                    )
                    &&& to2.total_delegated_stake - net < u64::MAX ==> gains(
                        t.amount,
                        t.reward_debt,
                        to.cumulative_reward_per_token,
                        to2.total_delegated_stake - net - to.total_delegated_stake,
                    )
                    // The record: one redelegation more, and seven days until the fee is reset.
                    &&& record2.delegator == ctx.delegator
                    &&& record2.redelegation_count == if now >= record.fee_reset_at {
                        1
                    } else {
                        record.redelegation_count + 1
                    }
                    &&& record2.last_redelegation_at == now
                    &&& record2.fee_reset_at == now + 604_800
                    &&& record2.bump == record.bump
                    &&& record2.version == record.version
                    &&& s2 == (GatewaySettings { total_delegated: s2.total_delegated, ..s })
                    &&& falls_by(s.total_delegated, s2.total_delegated, fee as int)
                    &&& o.event.delegator == ctx.delegator
                    &&& o.event.from_gateway == from.operator
                    &&& o.event.to_gateway == to.operator
                    &&& o.event.amount == amount
                    &&& o.event.timestamp == now
                },
            }
        }),
{
    lemma_settled_gains(ctx.source_gateway, ctx.source_delegation);
    lemma_settled_gains(ctx.target_gateway, ctx.target_delegation);
    redelegation_fee_is_capped(ctx.redelegation_record, amount, now);
    lemma_fee_by_count(ctx.redelegation_record, amount, now);
}

/// `redelegate_stake` goes by the allowlist entry of the delegate at the target.
pub proof fn redelegation_goes_by_the_delegates_own_entry(
    ctx: RedelegateStake,
    amount: u64,
    now: i64,
    at: Result<Outcome<RedelegateStake, RedelegationEvent>, Refusal>,
    r: Result<Outcome<RedelegateStake, RedelegationEvent>, Refusal>,
)
    requires
        10 * ctx.redelegation_record.effective_count(now) <= u32::MAX,
        call_ensures(
            redelegate_stake_at,
            (ctx, amount, now, allowlist_pda(ctx.target_gateway.operator, ctx.delegator, ctx.program_id)),
            at,
        ),
        call_ensures(redelegate_stake, (ctx, amount, now), r),
    ensures
        match r {
            Err(e) => at == Err::<Outcome<RedelegateStake, RedelegationEvent>, Refusal>(e),
            Ok(o) => at matches Ok(o2) && o.accounts == o2.accounts && o.transfers@ == o2.transfers@ && o.event
                == o2.event,
        },
{
}

/// Redelegating again within seven days costs ten percent more of the amount each
/// time, up to sixty; after seven days without, it is free again.
pub proof fn redelegating_again_costs_more(
    first: RedelegateStake,
    amount: u64,
    now: i64,
    allow_address: Option<(Pubkey, u8)>,
    o: Outcome<RedelegateStake, RedelegationEvent>,
    second: RedelegateStake,
    amount2: u64,
    later: i64,
    allow_address2: Option<(Pubkey, u8)>,
    o2: Outcome<RedelegateStake, RedelegationEvent>,
)
    requires
        10 * first.redelegation_record.effective_count(now) <= u32::MAX - 10,
        call_ensures(redelegate_stake_at, (first, amount, now, allow_address), Ok::<_, Refusal>(o)),
        second.redelegation_record == o.accounts.redelegation_record,
        call_ensures(redelegate_stake_at, (second, amount2, later, allow_address2), Ok::<_, Refusal>(o2)),
    ensures
        later >= now + 604_800 ==> o2.event.fee == 0,
        later < now + 604_800 && now >= first.redelegation_record.fee_reset_at ==> is_part(
            o2.event.fee as int,
            amount2 as int,
            1,
            10,
        ),
        later < now + 604_800 && now < first.redelegation_record.fee_reset_at
            && first.redelegation_record.redelegation_count < 6 ==> is_part(
            o2.event.fee as int,
            amount2 as int,
            first.redelegation_record.redelegation_count + 1,
            10,
        ),
        later < now + 604_800 && now < first.redelegation_record.fee_reset_at
            && first.redelegation_record.redelegation_count >= 6 ==> is_part(
            o2.event.fee as int,
            amount2 as int,
            6,
            10,
        ),
{
    lemma_fee_by_count(second.redelegation_record, amount2, later);
}

} // verus!
