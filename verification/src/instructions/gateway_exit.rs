//! Leaving the network, being pruned from it, and giving up the registry slot.

use vstd::prelude::*;
use crate::addresses::{
    gateway_address, gateway_pda, observer_lookup_address, observer_lookup_pda, withdrawal_address, withdrawal_pda,
};
use crate::arith::{clamp_i64, falls_by, lesser, minus_or_zero, saturating_add_i64, saturating_mul_i64};
use crate::error::GarError;
use crate::events::{
    GatewayFinalizedEvent, GatewayLeavingEvent, GatewayPrunedEvent, InstantWithdrawalEvent, WithdrawalClaimedEvent,
};
use crate::instructions::effects::{transfer_if_any, Holder, Outcome, Refusal, TokenTransfer};
use crate::instructions::funding_plan::counter_in_use;
use crate::instructions::gateway_account::GatewayAccount;
use crate::instructions::places::{
    lemma_moving_keeps_slots_placed, on_time_count, place_in, place_of, places_rest_on_times_alone,
};
use crate::instructions::withdrawal::{
    claim_refusal, claim_withdrawal, instant_refusal, instant_withdrawal, ClaimWithdrawal, InstantWithdrawal,
};
use crate::pubkey::Pubkey;
use crate::state::accounts::{
    EpochSettings, Gateway, GatewayRegistry, GatewaySettings, GatewaySlot, GatewayStatus, RegistryIndex, Withdrawal,
    WithdrawalCounter,
};
use crate::state::constants::{withdrawal_counter_version, withdrawal_version, GATEWAY_LEAVE_PERIOD};
use crate::state::epoch::Epoch;

verus! {

/// An account that is passed to be opened.
#[derive(Clone, Copy, Debug)]
pub struct NewAccount {
    pub key: Pubkey,
    /// Whether the account holds no data yet.
    pub empty: bool,
}

/// An account that is passed as an observer's index entry.
#[derive(Clone, Copy, Debug)]
pub struct LookupAccount {
    pub key: Pubkey,
    pub writable: bool,
}

/// The part of a stake that goes into the protected vault: the minimum.
pub open spec fn protected_part(stake: int, min_stake: int) -> int {
    lesser(stake, min_stake)
}

/// The part of a stake that is free of it: what exceeds the minimum.
pub open spec fn excess_part(stake: int, min_stake: int) -> int {
    minus_or_zero(stake, min_stake)
}

/// The two parts make up the stake.
pub proof fn exit_parts_make_up_stake(stake: int, min_stake: int)
    requires
        0 <= stake,
        0 <= min_stake,
    ensures
        protected_part(stake, min_stake) + excess_part(stake, min_stake) == stake,
        protected_part(stake, min_stake) <= min_stake,
{
}

/// What is wrong with the vault for the excess, if there is any excess. `expected`
/// is the address of the withdrawal after the next.
pub open spec fn excess_refusal(
    excess: int,
    supplied: Option<NewAccount>,
    expected: Option<(Pubkey, u8)>,
) -> Option<Refusal> {
    if excess <= 0 {
        None
    } else {
        match (supplied, expected) {
            (None, _) => Some(Refusal::Gar(GarError::MissingExcessWithdrawal)),
            (Some(account), None) => Some(Refusal::NoProgramAddress),
            (Some(account), Some((key, bump))) => if account.key != key {
                Some(Refusal::Gar(GarError::InvalidExcessWithdrawalPda))
            } else if !account.empty {
                Some(Refusal::Gar(GarError::InvalidParameter))
            } else {
                None
            },
        }
    }
}

fn check_excess(excess: u64, supplied: &Option<NewAccount>, expected: &Option<(Pubkey, u8)>) -> (r: Result<u8, Refusal>)
    ensures
        match r {
            Err(e) => excess_refusal(excess as int, *supplied, *expected) == Some(e),
            Ok(bump) => {
                &&& excess_refusal(excess as int, *supplied, *expected) is None
                &&& excess > 0 ==> (*expected matches Some((key, b)) && b == bump)
            },
        },
{
    if excess == 0 {
        return Ok(0);
    }
    match supplied {
        None => Err(Refusal::Gar(GarError::MissingExcessWithdrawal)),
        Some(account) => match expected {
            None => Err(Refusal::NoProgramAddress),
            Some((key, bump)) => if account.key != *key {
                Err(Refusal::Gar(GarError::InvalidExcessWithdrawalPda))
            } else if !account.empty {
                Err(Refusal::Gar(GarError::InvalidParameter))
            } else {
                Ok(*bump)
            },
        },
    }
}

/// The vault for the protected part of the stake. A vault without anything in it
/// may be closed at once.
pub open spec fn exit_vault(
    operator: Pubkey,
    withdrawal_id: u64,
    amount: int,
    now: i64,
    bump: u8,
) -> Withdrawal {
    Withdrawal {
        owner: operator,
        withdrawal_id,
        gateway: operator,
        amount: amount as u64,
        created_at: now,
        available_at: if amount > 0 {
            (now + GATEWAY_LEAVE_PERIOD) as i64
        } else {
            now
        },
        is_delegate: false,
        is_exit_vault: true,
        is_protected: amount > 0,
        bump,
        version: withdrawal_version(),
    }
}

/// The vault for the part of the stake that exceeds the minimum.
pub open spec fn excess_vault(
    operator: Pubkey,
    withdrawal_id: u64,
    amount: int,
    now: i64,
    available_at: i64,
    bump: u8,
) -> Withdrawal {
    Withdrawal {
        owner: operator,
        withdrawal_id,
        gateway: operator,
        amount: amount as u64,
        created_at: now,
        available_at,
        is_delegate: false,
        is_exit_vault: true,
        is_protected: false,
        bump,
        version: withdrawal_version(),
    }
}

/// The gateway's place in the registry is the one that it names.
pub open spec fn registered(registry: GatewayRegistry, gateway: Gateway) -> bool {
    let index = gateway.registry_index.index as int;
    &&& index < GatewayRegistry::MAX_GATEWAYS
    &&& index < registry.count
    &&& registry.gateways@[index].address == gateway.operator
}

/// The registry once a gateway is leaving: its slot stays, without a weight.
pub open spec fn slot_marked_leaving(before: GatewayRegistry, after: GatewayRegistry, index: int) -> bool {
    &&& after == (GatewayRegistry { gateways: after.gateways, ..before })
    &&& after.gateways@ == before.gateways@.update(
        index,
        GatewaySlot {
            composite_weight: 0,
            status: GatewaySlot::STATUS_LEAVING,
            ..before.gateways@[index]
        },
    )
}

fn is_registered(registry: &GatewayRegistry, gateway: &Gateway) -> (r: bool)
    requires
        registry.wf(),
    ensures
        r == registered(*registry, *gateway),
{
    let index: usize = gateway.registry_index.index as usize;
    index < GatewayRegistry::MAX_GATEWAYS && gateway.registry_index.index < registry.count
        && registry.gateways[index].address == gateway.operator
}

fn mark_leaving(registry: &mut GatewayRegistry, index: usize)
    requires
        old(registry).wf(),
        index < 3000,
    ensures
        slot_marked_leaving(*old(registry), *final(registry), index as int),
{
    let mut slot = registry.gateways[index];
    slot.composite_weight = 0;
    slot.status = GatewaySlot::STATUS_LEAVING;
    registry.gateways.set(index, slot);
}

/// Whether the observer's index entry is closed along with the gateway: only if
/// it is passed, lies at its address and can be written.
pub open spec fn lookup_closed(supplied: Option<LookupAccount>, expected: Option<(Pubkey, u8)>) -> Result<bool, Refusal> {
    match (supplied, expected) {
        (None, _) => Ok(false),
        (Some(account), None) => Err(Refusal::NoProgramAddress),
        (Some(account), Some((key, bump))) => Ok(account.key == key && account.writable),
    }
}

fn check_lookup(supplied: &Option<LookupAccount>, expected: &Option<(Pubkey, u8)>) -> (r: Result<bool, Refusal>)
    ensures
        r == lookup_closed(*supplied, *expected),
{
    match supplied {
        None => Ok(false),
        Some(account) => match expected {
            None => Err(Refusal::NoProgramAddress),
            Some((key, _bump)) => Ok(account.key == *key && account.writable),
        },
    }
}

/// The lamports of the recipient and of the entry once the entry is closed.
pub fn close_observer_lookup_account(recipient_lamports: u64, lookup_lamports: u64) -> (r: Result<(u64, u64), GarError>)
    ensures
        match r {
            Err(e) => recipient_lamports + lookup_lamports > u64::MAX && e == GarError::ArithmeticOverflow,
            Ok((recipient, lookup)) => recipient == recipient_lamports + lookup_lamports && lookup == 0,
        },
{
    match recipient_lamports.checked_add(lookup_lamports) {
        None => Err(GarError::ArithmeticOverflow),
        Some(sum) => Ok((sum, 0)),
    }
}

/// The counter's next number once one or two vaults have been opened.
pub open spec fn next_id_after(exit_id: u64, excess: int) -> int {
    if excess > 0 {
        exit_id + 2
    } else {
        exit_id + 1
    }
}

/// A gateway that is leaving, without any stake of the operator.
pub open spec fn leaving_gateway(gateway: Gateway, epoch_settings: EpochSettings, now: i64) -> Gateway {
    Gateway {
        status: GatewayStatus::Leaving,
        leave_timestamp: Some(now),
        leave_epoch_duration: epoch_settings.epoch_duration,
        operator_stake: 0,
        ..gateway
    }
}

/// The accounts of `leave_network`.
#[derive(Clone, Debug)]
pub struct LeaveNetwork {
    pub registry: GatewayRegistry,
    pub settings: GatewaySettings,
    pub gateway: Gateway,
    pub epoch_settings: EpochSettings,
    pub withdrawal_counter: WithdrawalCounter,
    pub withdrawal_counter_bump: u8,
    /// The bump seed of the vault to be opened.
    pub withdrawal_bump: u8,
    /// The account for the excess, if it was passed.
    pub excess_withdrawal: Option<NewAccount>,
    /// The observer's index entry, if it was passed.
    pub observer_lookup: Option<LookupAccount>,
    pub operator: Pubkey,
    pub program_id: Pubkey,
}

/// The accounts that `leave_network` and `prune_gateway` write.
#[derive(Clone, Debug)]
pub struct ExitAccounts {
    pub registry: GatewayRegistry,
    pub settings: GatewaySettings,
    pub gateway: Gateway,
    pub withdrawal_counter: WithdrawalCounter,
    pub withdrawal: Withdrawal,
    pub excess_withdrawal: Option<Withdrawal>,
    /// Whether the observer's index entry is to be closed.
    pub close_observer_lookup: bool,
}

/// Why a gateway cannot leave, if so.
pub open spec fn leave_refusal(
    ctx: LeaveNetwork,
    now: i64,
    excess_address: Option<(Pubkey, u8)>,
    lookup_address: Option<(Pubkey, u8)>,
) -> Option<Refusal> {
    let stake = ctx.gateway.operator_stake as int;
    let excess = excess_part(stake, ctx.settings.min_operator_stake as int);
    let excess_until = now + ctx.settings.withdrawal_period;
    if ctx.gateway.operator != ctx.operator {
        Some(Refusal::Gar(GarError::NotOperator))
    } else if now + GATEWAY_LEAVE_PERIOD > i64::MAX || excess_until > i64::MAX || excess_until < i64::MIN {
        Some(Refusal::Gar(GarError::ArithmeticOverflow))
    } else if ctx.gateway.status != GatewayStatus::Joined {
        Some(Refusal::Gar(GarError::GatewayNotJoined))
    } else if ctx.withdrawal_counter.next_id == u64::MAX {
        Some(Refusal::Gar(GarError::ArithmeticOverflow))
    } else if excess_refusal(excess, ctx.excess_withdrawal, excess_address) is Some {
        excess_refusal(excess, ctx.excess_withdrawal, excess_address)
    } else if next_id_after(ctx.withdrawal_counter.next_id, excess) > u64::MAX {
        Some(Refusal::Gar(GarError::ArithmeticOverflow))
    } else if !registered(ctx.registry, ctx.gateway) {
        Some(Refusal::Gar(GarError::InvalidParameter))
    } else if lookup_closed(ctx.observer_lookup, lookup_address) is Err {
        Some(lookup_closed(ctx.observer_lookup, lookup_address)->Err_0)
    } else if ctx.settings.total_withdrawn + stake > u64::MAX {
        Some(Refusal::Gar(GarError::ArithmeticOverflow))
    } else {
        None
    }
}

/// The accounts once a gateway has left.
pub open spec fn has_left(
    ctx: LeaveNetwork,
    now: i64,
    excess_address: Option<(Pubkey, u8)>,
    lookup_address: Option<(Pubkey, u8)>,
    after: ExitAccounts,
) -> bool {
    let stake = ctx.gateway.operator_stake as int;
    let min_stake = ctx.settings.min_operator_stake as int;
    let excess = excess_part(stake, min_stake);
    let counter = counter_in_use(ctx.withdrawal_counter, ctx.operator, ctx.withdrawal_counter_bump);
    &&& slot_marked_leaving(ctx.registry, after.registry, ctx.gateway.registry_index.index as int)
    &&& after.settings == (GatewaySettings {
        total_staked: minus_or_zero(ctx.settings.total_staked as int, stake) as u64,
        total_withdrawn: (ctx.settings.total_withdrawn + stake) as u64,
        ..ctx.settings
    })
    &&& after.gateway == leaving_gateway(ctx.gateway, ctx.epoch_settings, now)
    &&& after.withdrawal_counter == (WithdrawalCounter {
        next_id: next_id_after(counter.next_id, excess) as u64,
        ..counter
    })
    &&& after.withdrawal == exit_vault(
        ctx.operator,
        counter.next_id,
        protected_part(stake, min_stake),
        now,
        ctx.withdrawal_bump,
    )
    &&& after.excess_withdrawal == if excess > 0 {
        Some(
            excess_vault(
                ctx.operator,
                (counter.next_id + 1) as u64,
                excess,
                now,
                (now + ctx.settings.withdrawal_period) as i64,
                excess_address->Some_0.1,
            ),
        )
    } else {
        None
    }
    &&& lookup_closed(ctx.observer_lookup, lookup_address) == Ok::<bool, Refusal>(after.close_observer_lookup)
}

/// Leaves the network, with the addresses of the excess vault and of the
/// observer's index entry given. The operator's stake moves to two vaults: the
/// minimum to a protected one that is locked for 90 days, and what exceeds it to
/// an ordinary one. The registry slot stays until `finalize_gone` frees it, so
/// that slots keep their meaning while an epoch runs.
pub fn leave_network_at(
    ctx: LeaveNetwork,
    now: i64,
    excess_address: Option<(Pubkey, u8)>,
    lookup_address: Option<(Pubkey, u8)>,
) -> (r: Result<Outcome<ExitAccounts, GatewayLeavingEvent>, Refusal>)
    requires
        ctx.registry.wf(),
    ensures
        match r {
            Err(e) => leave_refusal(ctx, now, excess_address, lookup_address) == Some(e),
            Ok(o) => {
                &&& leave_refusal(ctx, now, excess_address, lookup_address) is None
                &&& has_left(ctx, now, excess_address, lookup_address, o.accounts)
                &&& o.transfers@.len() == 0
                &&& o.event == (GatewayLeavingEvent { operator: ctx.gateway.operator, timestamp: now })
            },
        },
{
    if ctx.gateway.operator != ctx.operator {
        return Err(Refusal::Gar(GarError::NotOperator));
    }
    let protected_available_at: i64 = match now.checked_add(GATEWAY_LEAVE_PERIOD) {
        None => {
            return Err(Refusal::Gar(GarError::ArithmeticOverflow));
        },
        Some(t) => t,
    };
    let excess_available_at: i64 = match now.checked_add(ctx.settings.withdrawal_period) {
        None => {
            return Err(Refusal::Gar(GarError::ArithmeticOverflow));
        },
        Some(t) => t,
    };
    if ctx.gateway.status != GatewayStatus::Joined {
        return Err(Refusal::Gar(GarError::GatewayNotJoined));
    }
    let pre_stake: u64 = ctx.gateway.operator_stake;
    let min_stake: u64 = ctx.settings.min_operator_stake;
    let protected_amount: u64 = if pre_stake <= min_stake {
        pre_stake
    } else {
        min_stake
    };
    let excess_amount: u64 = pre_stake.saturating_sub(min_stake);
    let mut counter = ctx.withdrawal_counter;
    if counter.bump == 0 {
        counter.owner = ctx.operator;
        counter.bump = ctx.withdrawal_counter_bump;
        counter.version = withdrawal_counter_version();
    }
    let exit_id: u64 = counter.next_id;
    let excess_id: u64 = match exit_id.checked_add(1) {
        None => {
            return Err(Refusal::Gar(GarError::ArithmeticOverflow));
        },
        Some(id) => id,
    };
    let withdrawal = Withdrawal {
        owner: ctx.operator,
        withdrawal_id: exit_id,
        gateway: ctx.gateway.operator,
        amount: protected_amount,
        created_at: now,
        available_at: if protected_amount > 0 {
            protected_available_at
        } else {
            now
        },
        is_delegate: false,
        is_exit_vault: true,
        is_protected: protected_amount > 0,
        bump: ctx.withdrawal_bump,
        version: withdrawal_version(),
    };
    let vault_bump: u8 = match check_excess(excess_amount, &ctx.excess_withdrawal, &excess_address) {
        Err(e) => {
            return Err(e);
        },
        Ok(bump) => bump,
    };
    let mut excess_withdrawal: Option<Withdrawal> = None;
    if excess_amount > 0 {
        excess_withdrawal = Some(
            Withdrawal {
                owner: ctx.operator,
                withdrawal_id: excess_id,
                gateway: ctx.gateway.operator,
                amount: excess_amount,
                created_at: now,
                available_at: excess_available_at,
                is_delegate: false,
                is_exit_vault: true,
                is_protected: false,
                bump: vault_bump,
                version: withdrawal_version(),
            },
        );
        counter.next_id = match excess_id.checked_add(1) {
            None => {
                return Err(Refusal::Gar(GarError::ArithmeticOverflow));
            },
            Some(id) => id,
        };
    } else {
        counter.next_id = excess_id;
    }
    if !is_registered(&ctx.registry, &ctx.gateway) {
        return Err(Refusal::Gar(GarError::InvalidParameter));
    }
    let close_observer_lookup: bool = match check_lookup(&ctx.observer_lookup, &lookup_address) {
        Err(e) => {
            return Err(e);
        },
        Ok(closed) => closed,
    };
    let mut settings = ctx.settings;
    settings.total_staked = settings.total_staked.saturating_sub(pre_stake);
    settings.total_withdrawn = match settings.total_withdrawn.checked_add(pre_stake) {
        None => {
            return Err(Refusal::Gar(GarError::ArithmeticOverflow));
        },
        Some(total) => total,
    };
    let mut gateway = ctx.gateway;
    gateway.status = GatewayStatus::Leaving;
    gateway.leave_timestamp = Some(now);
    gateway.leave_epoch_duration = ctx.epoch_settings.epoch_duration;
    gateway.operator_stake = 0;
    let mut registry = ctx.registry;
    mark_leaving(&mut registry, gateway.registry_index.index as usize);
    let event = GatewayLeavingEvent { operator: gateway.operator, timestamp: now };
    Ok(
        Outcome {
            accounts: ExitAccounts {
                registry,
                settings,
                gateway,
                withdrawal_counter: counter,
                withdrawal,
                excess_withdrawal,
                close_observer_lookup,
            },
            transfers: Vec::new(),
            event,
        },
    )
}

/// The address of an owner's withdrawal after the next.
pub open spec fn second_withdrawal_pda(owner: Pubkey, next_id: u64, program_id: Pubkey) -> Option<(Pubkey, u8)> {
    if next_id < u64::MAX {
        withdrawal_pda(owner, (next_id + 1) as u64, program_id)
    } else {
        None
    }
}

fn second_withdrawal_address(owner: &Pubkey, next_id: u64, program_id: &Pubkey) -> (r: Option<(Pubkey, u8)>)
    ensures
        r == second_withdrawal_pda(*owner, next_id, *program_id),
{
    if next_id < u64::MAX {
        withdrawal_address(owner, next_id + 1, program_id)
    } else {
        None
    }
}

/// Leaves the network: `leave_network_at` with the derived addresses.
pub fn leave_network(ctx: LeaveNetwork, now: i64) -> (r: Result<Outcome<ExitAccounts, GatewayLeavingEvent>, Refusal>)
    requires
        ctx.registry.wf(),
    ensures
        ({
            let excess_address = second_withdrawal_pda(
                ctx.operator,
                ctx.withdrawal_counter.next_id,
                ctx.program_id,
            );
            let lookup_address = observer_lookup_pda(ctx.gateway.observer_address, ctx.program_id);
            match r {
                Err(e) => leave_refusal(ctx, now, excess_address, lookup_address) == Some(e),
                Ok(o) => {
                    &&& leave_refusal(ctx, now, excess_address, lookup_address) is None
                    &&& has_left(ctx, now, excess_address, lookup_address, o.accounts)
                    &&& o.transfers@.len() == 0
                    &&& o.event == (GatewayLeavingEvent { operator: ctx.gateway.operator, timestamp: now })
                },
            }
        }),
{
    let excess_address = second_withdrawal_address(
        &ctx.operator,
        ctx.withdrawal_counter.next_id,
        &ctx.program_id,
    );
    let lookup_address = observer_lookup_address(&ctx.gateway.observer_address, &ctx.program_id);
    leave_network_at(ctx, now, excess_address, lookup_address)
}

/// The accounts of `prune_gateway`.
#[derive(Clone, Debug)]
pub struct PruneGateway {
    pub settings: GatewaySettings,
    pub epoch_settings: EpochSettings,
    pub registry: GatewayRegistry,
    pub gateway: Gateway,
    pub withdrawal_counter: WithdrawalCounter,
    pub withdrawal_counter_bump: u8,
    /// The bump seed of the vault to be opened.
    pub withdrawal_bump: u8,
    /// The account for the excess, if it was passed.
    pub excess_withdrawal: Option<NewAccount>,
    /// The observer's index entry, if it was passed.
    pub observer_lookup: Option<LookupAccount>,
    pub stake_token_account: Pubkey,
    pub protocol_token_account: Pubkey,
    pub payer: Pubkey,
    pub program_id: Pubkey,
}

/// What a pruned gateway forfeits: the minimum stake.
pub open spec fn slashed_part(gateway: Gateway, settings: GatewaySettings) -> int {
    lesser(settings.min_operator_stake as int, gateway.operator_stake as int)
}

/// Why a gateway cannot be pruned, if so.
pub open spec fn prune_refusal(
    ctx: PruneGateway,
    now: i64,
    excess_address: Option<(Pubkey, u8)>,
    lookup_address: Option<(Pubkey, u8)>,
) -> Option<Refusal> {
    let left = ctx.gateway.operator_stake - slashed_part(ctx.gateway, ctx.settings);
    let excess = excess_part(left, ctx.settings.min_operator_stake as int);
    if ctx.stake_token_account != ctx.settings.stake_token_account {
        Some(Refusal::Gar(GarError::InvalidParameter))
    } else if ctx.protocol_token_account != ctx.settings.protocol_token_account {
        Some(Refusal::Gar(GarError::InvalidParameter))
    } else if ctx.gateway.status != GatewayStatus::Joined {
        Some(Refusal::Gar(GarError::GatewayNotJoined))
    } else if ctx.gateway.stats.failed_consecutive < ctx.epoch_settings.max_consecutive_failures {
        Some(Refusal::Gar(GarError::GatewayNotEligible))
    } else if now + GATEWAY_LEAVE_PERIOD > i64::MAX {
        Some(Refusal::Gar(GarError::ArithmeticOverflow))
    } else if ctx.withdrawal_counter.next_id == u64::MAX {
        Some(Refusal::Gar(GarError::ArithmeticOverflow))
    } else if excess_refusal(excess, ctx.excess_withdrawal, excess_address) is Some {
        excess_refusal(excess, ctx.excess_withdrawal, excess_address)
    } else if next_id_after(ctx.withdrawal_counter.next_id, excess) > u64::MAX {
        Some(Refusal::Gar(GarError::ArithmeticOverflow))
    } else if !registered(ctx.registry, ctx.gateway) {
        Some(Refusal::Gar(GarError::InvalidParameter))
    } else if lookup_closed(ctx.observer_lookup, lookup_address) is Err {
        Some(lookup_closed(ctx.observer_lookup, lookup_address)->Err_0)
    } else if ctx.settings.total_withdrawn + left > u64::MAX {
        Some(Refusal::Gar(GarError::ArithmeticOverflow))
    } else {
        None
    }
}

/// The accounts once a gateway has been pruned.
pub open spec fn has_been_pruned(
    ctx: PruneGateway,
    now: i64,
    excess_address: Option<(Pubkey, u8)>,
    lookup_address: Option<(Pubkey, u8)>,
    after: ExitAccounts,
) -> bool {
    let operator = ctx.gateway.operator;
    let stake = ctx.gateway.operator_stake as int;
    let min_stake = ctx.settings.min_operator_stake as int;
    let left = stake - slashed_part(ctx.gateway, ctx.settings);
    let excess = excess_part(left, min_stake);
    let counter = counter_in_use(ctx.withdrawal_counter, operator, ctx.withdrawal_counter_bump);
    &&& slot_marked_leaving(ctx.registry, after.registry, ctx.gateway.registry_index.index as int)
    &&& after.settings == (GatewaySettings {
        total_staked: minus_or_zero(ctx.settings.total_staked as int, stake) as u64,
        total_withdrawn: (ctx.settings.total_withdrawn + left) as u64,
        ..ctx.settings
    })
    &&& after.gateway == leaving_gateway(ctx.gateway, ctx.epoch_settings, now)
    &&& after.withdrawal_counter == (WithdrawalCounter {
        next_id: next_id_after(counter.next_id, excess) as u64,
        ..counter
    })
    &&& after.withdrawal == exit_vault(
        operator,
        counter.next_id,
        protected_part(left, min_stake),
        now,
        ctx.withdrawal_bump,
    )
    &&& after.excess_withdrawal == if excess > 0 {
        Some(
            excess_vault(
                operator,
                (counter.next_id + 1) as u64,
                excess,
                now,
                (now + GATEWAY_LEAVE_PERIOD) as i64,
                excess_address->Some_0.1,
            ),
        )
    } else {
        None
    }
    &&& lookup_closed(ctx.observer_lookup, lookup_address) == Ok::<bool, Refusal>(after.close_observer_lookup)
}

/// Prunes a gateway that has failed too many epochs in a row, with the addresses
/// of the excess vault and of the observer's index entry given. The minimum stake
/// goes to the treasury; what is left moves to vaults as when a gateway leaves,
/// all of it locked for 90 days.
pub fn prune_gateway_at(
    ctx: PruneGateway,
    now: i64,
    excess_address: Option<(Pubkey, u8)>,
    lookup_address: Option<(Pubkey, u8)>,
) -> (r: Result<Outcome<ExitAccounts, GatewayPrunedEvent>, Refusal>)
    requires
        ctx.registry.wf(),
    ensures
        match r {
            Err(e) => prune_refusal(ctx, now, excess_address, lookup_address) == Some(e),
            Ok(o) => {
                let slashed = slashed_part(ctx.gateway, ctx.settings);
                &&& prune_refusal(ctx, now, excess_address, lookup_address) is None
                &&& has_been_pruned(ctx, now, excess_address, lookup_address, o.accounts)
                &&& o.transfers@ == transfer_if_any(Holder::StakePool, Holder::Treasury, slashed)
                &&& o.event == (GatewayPrunedEvent {
                    operator: ctx.gateway.operator,
                    pruner: ctx.payer,
                    slashed_amount: slashed as u64,
                    timestamp: now,
                })
            },
        },
{
    if ctx.stake_token_account != ctx.settings.stake_token_account {
        return Err(Refusal::Gar(GarError::InvalidParameter));
    }
    if ctx.protocol_token_account != ctx.settings.protocol_token_account {
        return Err(Refusal::Gar(GarError::InvalidParameter));
    }
    if ctx.gateway.status != GatewayStatus::Joined {
        return Err(Refusal::Gar(GarError::GatewayNotJoined));
    }
    if ctx.gateway.stats.failed_consecutive < ctx.epoch_settings.max_consecutive_failures {
        return Err(Refusal::Gar(GarError::GatewayNotEligible));
    }
    let operator = ctx.gateway.operator;
    let min_stake: u64 = ctx.settings.min_operator_stake;
    let pre_stake: u64 = ctx.gateway.operator_stake;
    let slash_amount: u64 = if min_stake <= pre_stake {
        min_stake
    } else {
        pre_stake
    };
    let post_slash: u64 = pre_stake.saturating_sub(slash_amount);
    let available_at: i64 = match now.checked_add(GATEWAY_LEAVE_PERIOD) {
        None => {
            return Err(Refusal::Gar(GarError::ArithmeticOverflow));
        },
        Some(t) => t,
    };
    let protected_amount: u64 = if post_slash <= min_stake {
        post_slash
    } else {
        min_stake
    };
    let excess_amount: u64 = post_slash.saturating_sub(min_stake);
    let mut counter = ctx.withdrawal_counter;
    if counter.bump == 0 {
        counter.owner = operator;
        counter.bump = ctx.withdrawal_counter_bump;
        counter.version = withdrawal_counter_version();
    }
    let exit_id: u64 = counter.next_id;
    let excess_id: u64 = match exit_id.checked_add(1) {
        None => {
            return Err(Refusal::Gar(GarError::ArithmeticOverflow));
        },
        Some(id) => id,
    };
    let withdrawal = Withdrawal {
        owner: operator,
        withdrawal_id: exit_id,
        gateway: operator,
        amount: protected_amount,
        created_at: now,
        available_at: if protected_amount > 0 {
            available_at
        } else {
            now
        },
        is_delegate: false,
        is_exit_vault: true,
        is_protected: protected_amount > 0,
        bump: ctx.withdrawal_bump,
        version: withdrawal_version(),
    };
    let vault_bump: u8 = match check_excess(excess_amount, &ctx.excess_withdrawal, &excess_address) {
        Err(e) => {
            return Err(e);
        },
        Ok(bump) => bump,
    };
    let mut excess_withdrawal: Option<Withdrawal> = None;
    if excess_amount > 0 {
        excess_withdrawal = Some(
            Withdrawal {
                owner: operator,
                withdrawal_id: excess_id,
                gateway: operator,
                amount: excess_amount,
                created_at: now,
                available_at,
                is_delegate: false,
                is_exit_vault: true,
                is_protected: false,
                bump: vault_bump,
                version: withdrawal_version(),
            },
        );
        counter.next_id = match excess_id.checked_add(1) {
            None => {
                return Err(Refusal::Gar(GarError::ArithmeticOverflow));
            },
            Some(id) => id,
        };
    } else {
        counter.next_id = excess_id;
    }
    if !is_registered(&ctx.registry, &ctx.gateway) {
        return Err(Refusal::Gar(GarError::InvalidParameter));
    }
    let close_observer_lookup: bool = match check_lookup(&ctx.observer_lookup, &lookup_address) {
        Err(e) => {
            return Err(e);
        },
        Ok(closed) => closed,
    };
    let mut settings = ctx.settings;
    settings.total_staked = settings.total_staked.saturating_sub(slash_amount.saturating_add(post_slash));
    settings.total_withdrawn = match settings.total_withdrawn.checked_add(post_slash) {
        None => {
            return Err(Refusal::Gar(GarError::ArithmeticOverflow));
        },
        Some(total) => total,
    };
    let mut gateway = ctx.gateway;
    gateway.operator_stake = 0;
    gateway.status = GatewayStatus::Leaving;
    gateway.leave_timestamp = Some(now);
    gateway.leave_epoch_duration = ctx.epoch_settings.epoch_duration;
    let mut registry = ctx.registry;
    mark_leaving(&mut registry, gateway.registry_index.index as usize);
    let mut transfers: Vec<TokenTransfer> = Vec::new();
    if slash_amount > 0 {
        transfers.push(
            TokenTransfer { from: Holder::StakePool, to: Holder::Treasury, amount: slash_amount },
        );
    }
    let event = GatewayPrunedEvent {
        operator,
        pruner: ctx.payer,
        slashed_amount: slash_amount,
        timestamp: now,
    };
    Ok(
        Outcome {
            accounts: ExitAccounts {
                registry,
                settings,
                gateway,
                withdrawal_counter: counter,
                withdrawal,
                excess_withdrawal,
                close_observer_lookup,
            },
            transfers,
            event,
        },
    )
}

/// Prunes a gateway: `prune_gateway_at` with the derived addresses.
pub fn prune_gateway(ctx: PruneGateway, now: i64) -> (r: Result<Outcome<ExitAccounts, GatewayPrunedEvent>, Refusal>)
    requires
        ctx.registry.wf(),
    ensures
        ({
            let excess_address = second_withdrawal_pda(
                ctx.gateway.operator,
                ctx.withdrawal_counter.next_id,
                ctx.program_id,
            );
            let lookup_address = observer_lookup_pda(ctx.gateway.observer_address, ctx.program_id);
            match r {
                Err(e) => prune_refusal(ctx, now, excess_address, lookup_address) == Some(e),
                Ok(o) => {
                    let slashed = slashed_part(ctx.gateway, ctx.settings);
                    &&& prune_refusal(ctx, now, excess_address, lookup_address) is None
                    &&& has_been_pruned(ctx, now, excess_address, lookup_address, o.accounts)
                    &&& o.transfers@ == transfer_if_any(Holder::StakePool, Holder::Treasury, slashed)
                    &&& o.event == (GatewayPrunedEvent {
                        operator: ctx.gateway.operator,
                        pruner: ctx.payer,
                        slashed_amount: slashed as u64,
                        timestamp: now,
                    })
                },
            }
        }),
{
    let excess_address = second_withdrawal_address(
        &ctx.gateway.operator,
        ctx.withdrawal_counter.next_id,
        &ctx.program_id,
    );
    let lookup_address = observer_lookup_address(&ctx.gateway.observer_address, &ctx.program_id);
    prune_gateway_at(ctx, now, excess_address, lookup_address)
}

/// How long an epoch counts for a gateway that left: as long as it was then or is
/// now, whichever is longer.
pub open spec fn effective_duration(snapshot: i64, current: i64) -> int {
    let longer = if snapshot >= current {
        snapshot as int
    } else {
        current as int
    };
    if longer > 0 {
        longer
    } else {
        0
    }
}

/// When the slot of a gateway that left may be freed: after the leave period and
/// seven epochs.
pub open spec fn expiry_of(leave_timestamp: i64, snapshot: i64, current: i64) -> int {
    clamp_i64(
        leave_timestamp + clamp_i64(
            GATEWAY_LEAVE_PERIOD + clamp_i64(effective_duration(snapshot, current) * 7),
        ),
    )
}

/// When the slot of a gateway that left may be freed. Shortening the epochs after
/// it left does not bring that forward.
pub fn finalize_gone_expiry(gateway: &Gateway, current_epoch_duration: i64) -> (r: Result<i64, GarError>)
    ensures
        match r {
            Err(e) => gateway.leave_timestamp is None && e == GarError::GatewayNotLeaving,
            Ok(t) => gateway.leave_timestamp matches Some(left) && t == expiry_of(
                left,
                gateway.leave_epoch_duration,
                current_epoch_duration,
            ),
        },
{
    let leave_ts: i64 = match gateway.leave_timestamp {
        None => {
            return Err(GarError::GatewayNotLeaving);
        },
        Some(t) => t,
    };
    let snapshot: i64 = gateway.leave_epoch_duration;
    let longer: i64 = if snapshot >= current_epoch_duration {
        snapshot
    } else {
        current_epoch_duration
    };
    let effective: i64 = if longer > 0 {
        longer
    } else {
        0
    };
    let epoch_window: i64 = saturating_mul_i64(effective, 7);
    let total: i64 = saturating_add_i64(GATEWAY_LEAVE_PERIOD, epoch_window);
    Ok(saturating_add_i64(leave_ts, total))
}

/// The slot is kept for the whole leave period at least, and never for less time
/// than at the epoch length in force when the gateway left.
pub proof fn expiry_is_never_brought_forward(leave_timestamp: i64, snapshot: i64, current: i64)
    ensures
        expiry_of(leave_timestamp, snapshot, current) >= clamp_i64(leave_timestamp + GATEWAY_LEAVE_PERIOD),
        expiry_of(leave_timestamp, snapshot, current) >= expiry_of(leave_timestamp, snapshot, snapshot),
{
}

/// The accounts of `finalize_gone`. The gateway's account is closed.
#[derive(Clone, Debug)]
pub struct FinalizeGone {
    pub gateway: Gateway,
    pub registry: GatewayRegistry,
    pub epoch_settings: EpochSettings,
    /// The gateway of the last slot, if it was passed.
    pub swapped: Option<GatewayAccount>,
    pub caller: Pubkey,
    pub program_id: Pubkey,
}

/// What is wrong with the gateway of the last slot, which is to move up. `expected`
/// is the address that the slot gives.
pub open spec fn swapped_refusal(supplied: Option<GatewayAccount>, expected: Option<(Pubkey, u8)>) -> Option<Refusal> {
    match supplied {
        None => Some(Refusal::Gar(GarError::InvalidParameter)),
        Some(account) => if !account.writable || !account.owned {
            Some(Refusal::Gar(GarError::InvalidParameter))
        } else {
            match expected {
                None => Some(Refusal::NoProgramAddress),
                Some((key, bump)) => if account.key != key || account.gateway is None {
                    Some(Refusal::Gar(GarError::InvalidParameter))
                } else {
                    None
                },
            }
        },
    }
}

/// Why a gateway cannot be finalized, if so.
pub open spec fn finalize_refusal(ctx: FinalizeGone, now: i64, swapped_address: Option<(Pubkey, u8)>) -> Option<Refusal> {
    let g = ctx.gateway;
    if g.status != GatewayStatus::Leaving || g.leave_timestamp is None {
        Some(Refusal::Gar(GarError::GatewayNotLeaving))
    } else if now < expiry_of(
        g.leave_timestamp->Some_0,
        g.leave_epoch_duration,
        ctx.epoch_settings.epoch_duration,
    ) {
        Some(Refusal::Gar(GarError::LeaveWindowNotExpired))
    } else if g.total_delegated_stake != 0 {
        Some(Refusal::Gar(GarError::DelegationsOutstanding))
    } else if !registered(ctx.registry, g) {
        Some(Refusal::Gar(GarError::InvalidParameter))
    } else if g.registry_index.index != ctx.registry.count - 1 {
        swapped_refusal(ctx.swapped, swapped_address)
    } else {
        None
    }
}

/// The registry once slot `index` has been freed: the last slot takes its place,
/// and the last place is blank.
pub open spec fn slot_freed(before: GatewayRegistry, after: GatewayRegistry, index: int) -> bool {
    let last = before.count - 1;
    &&& after == (GatewayRegistry { count: (before.count - 1) as u32, gateways: after.gateways, ..before })
    &&& after.gateways@.len() == before.gateways@.len()
    &&& after.gateways@[last].is_blank()
    &&& index != last ==> after.gateways@[index] == before.gateways@[last]
    &&& forall|i: int|
        0 <= i < before.gateways@.len() && i != index && i != last ==> after.gateways@[i] == before.gateways@[i]
}

/// The accounts once a gateway is gone.
pub open spec fn is_finalized(ctx: FinalizeGone, after: FinalizeGone) -> bool {
    let index = ctx.gateway.registry_index.index;
    &&& after == (FinalizeGone {
        gateway: Gateway { status: GatewayStatus::Gone, ..ctx.gateway },
        registry: after.registry,
        swapped: after.swapped,
        ..ctx
    })
    &&& slot_freed(ctx.registry, after.registry, index as int)
    &&& after.swapped == if index != ctx.registry.count - 1 {
        let account = ctx.swapped->Some_0;
        let moved = account.gateway->Some_0;
        Some(
            GatewayAccount {
                gateway: Some(
                    Gateway { registry_index: RegistryIndex { index, ..moved.registry_index }, ..moved },
                ),
                ..account
            },
        )
    } else {
        ctx.swapped
    }
}

/// Frees the slot of a gateway that has left for good, with the address of the
/// gateway in the last slot given. The last slot moves into the freed one, and its
/// gateway is told so.
pub fn finalize_gone_at(ctx: FinalizeGone, now: i64, swapped_address: Option<(Pubkey, u8)>) -> (r: Result<
    Outcome<FinalizeGone, GatewayFinalizedEvent>,
    Refusal,
>)
    requires
        ctx.registry.wf(),
    ensures
        match r {
            Err(e) => finalize_refusal(ctx, now, swapped_address) == Some(e),
            Ok(o) => {
                &&& finalize_refusal(ctx, now, swapped_address) is None
                &&& is_finalized(ctx, o.accounts)
                &&& o.transfers@.len() == 0
                &&& o.event == (GatewayFinalizedEvent {
                    operator: ctx.gateway.operator,
                    pruner: ctx.caller,
                    timestamp: now,
                })
            },
        },
{
    let mut ctx = ctx;
    if ctx.gateway.status != GatewayStatus::Leaving {
        return Err(Refusal::Gar(GarError::GatewayNotLeaving));
    }
    let expiry: i64 = match finalize_gone_expiry(&ctx.gateway, ctx.epoch_settings.epoch_duration) {
        Err(e) => {
            return Err(Refusal::Gar(e));
        },
        Ok(expiry) => expiry,
    };
    if now < expiry {
        return Err(Refusal::Gar(GarError::LeaveWindowNotExpired));
    }
    if ctx.gateway.total_delegated_stake != 0 {
        return Err(Refusal::Gar(GarError::DelegationsOutstanding));
    }
    ctx.gateway.status = GatewayStatus::Gone;
    if !is_registered(&ctx.registry, &ctx.gateway) {
        return Err(Refusal::Gar(GarError::InvalidParameter));
    }
    let index: usize = ctx.gateway.registry_index.index as usize;
    let last_index: usize = (ctx.registry.count - 1) as usize;
    if index != last_index {
        let swapped_slot = ctx.registry.gateways[last_index];
        ctx.registry.gateways.set(index, swapped_slot);
        match &mut ctx.swapped {
            None => {
                return Err(Refusal::Gar(GarError::InvalidParameter));
            },
            Some(account) => {
                if !account.writable {
                    return Err(Refusal::Gar(GarError::InvalidParameter));
                }
                if !account.owned {
                    return Err(Refusal::Gar(GarError::InvalidParameter));
                }
                match swapped_address {
                    None => {
                        return Err(Refusal::NoProgramAddress);
                    },
                    Some((key, _bump)) => {
                        if account.key != key {
                            return Err(Refusal::Gar(GarError::InvalidParameter));
                        }
                    },
                }
                match &mut account.gateway {
                    None => {
                        return Err(Refusal::Gar(GarError::InvalidParameter));
                    },
                    Some(moved) => {
                        moved.registry_index.index = index as u32;
                    },
                }
            },
        }
    }
    ctx.registry.gateways.set(
        last_index,
        GatewaySlot::fresh(Pubkey::default(), 0, GatewaySlot::STATUS_JOINED),
    );
    ctx.registry.count = ctx.registry.count - 1;
    let event = GatewayFinalizedEvent {
        operator: ctx.gateway.operator,
        pruner: ctx.caller,
        timestamp: now,
    };
    Ok(Outcome { accounts: ctx, transfers: Vec::new(), event })
}

/// The address of the gateway in the last slot of a registry in use.
pub open spec fn last_gateway_pda(registry: GatewayRegistry, program_id: Pubkey) -> Option<(Pubkey, u8)> {
    if registry.count > 0 {
        gateway_pda(registry.gateways@[registry.count - 1].address, program_id)
    } else {
        None
    }
}

/// Frees the slot of a gateway that has left for good: `finalize_gone_at` with the
/// derived address.
pub fn finalize_gone(ctx: FinalizeGone, now: i64) -> (r: Result<Outcome<FinalizeGone, GatewayFinalizedEvent>, Refusal>)
    requires
        ctx.registry.wf(),
    ensures
        ({
            let swapped_address = last_gateway_pda(ctx.registry, ctx.program_id);
            match r {
                Err(e) => finalize_refusal(ctx, now, swapped_address) == Some(e),
                Ok(o) => {
                    &&& finalize_refusal(ctx, now, swapped_address) is None
                    &&& is_finalized(ctx, o.accounts)
                    &&& o.transfers@.len() == 0
                    &&& o.event == (GatewayFinalizedEvent {
                        operator: ctx.gateway.operator,
                        pruner: ctx.caller,
                        timestamp: now,
                    })
                },
            }
        }),
{
    let swapped_address = if ctx.registry.count > 0 {
        let last = ctx.registry.gateways[(ctx.registry.count - 1) as usize].address;
        gateway_address(&last, &ctx.program_id)
    } else {
        None
    };
    finalize_gone_at(ctx, now, swapped_address)
}

/// What an optional vault holds.
pub open spec fn vault_amount(vault: Option<Withdrawal>) -> int {
    match vault {
        Some(w) => w.amount as int,
        None => 0,
    }
}

/// A gateway that leaves loses no stake: all of it is in the two vaults, at most
/// the minimum in the protected one, and the supply counters move by as much.
pub proof fn leaving_conserves_stake(
    ctx: LeaveNetwork,
    now: i64,
    excess_address: Option<(Pubkey, u8)>,
    lookup_address: Option<(Pubkey, u8)>,
    after: ExitAccounts,
)
    requires
        leave_refusal(ctx, now, excess_address, lookup_address) is None,
        has_left(ctx, now, excess_address, lookup_address, after),
    ensures
        after.withdrawal.amount + vault_amount(after.excess_withdrawal) == ctx.gateway.operator_stake,
        after.gateway.operator_stake == 0,
        after.withdrawal.amount <= ctx.settings.min_operator_stake,
        ctx.settings.total_staked >= ctx.gateway.operator_stake ==> after.settings.total_staked
            + after.settings.total_withdrawn == ctx.settings.total_staked + ctx.settings.total_withdrawn,
{
}

/// A pruned gateway forfeits the minimum at most: that and the two vaults make up
/// its stake.
pub proof fn pruning_conserves_stake(
    ctx: PruneGateway,
    now: i64,
    excess_address: Option<(Pubkey, u8)>,
    lookup_address: Option<(Pubkey, u8)>,
    after: ExitAccounts,
)
    requires
        prune_refusal(ctx, now, excess_address, lookup_address) is None,
        has_been_pruned(ctx, now, excess_address, lookup_address, after),
    ensures
        slashed_part(ctx.gateway, ctx.settings) + after.withdrawal.amount + vault_amount(
            after.excess_withdrawal,
        ) == ctx.gateway.operator_stake,
        slashed_part(ctx.gateway, ctx.settings) <= ctx.settings.min_operator_stake,
        after.gateway.operator_stake == 0,
        ctx.settings.total_staked >= ctx.gateway.operator_stake ==> after.settings.total_staked
            + after.settings.total_withdrawn + slashed_part(ctx.gateway, ctx.settings)
            == ctx.settings.total_staked + ctx.settings.total_withdrawn,
{
}

/// A gateway that is leaving keeps its place in the registry, and so does every
/// other one: slots do not move while an epoch may refer to them.
pub proof fn leaving_moves_no_slot(before: GatewayRegistry, after: GatewayRegistry, index: int, other: Gateway)
    requires
        before.wf(),
        0 <= index < before.count,
        slot_marked_leaving(before, after, index),
    ensures
        after.wf(),
        registered(before, other) <==> registered(after, other),
{
}

/// Once a slot has been freed, every other gateway still has the place that it
/// names, the one that moved up included, and no slot is left for the gateway that
/// is gone.
pub proof fn freeing_a_slot_keeps_places(ctx: FinalizeGone, now: i64, swapped_address: Option<(Pubkey, u8)>, after: FinalizeGone, other: Gateway)
    requires
        ctx.registry.wf(),
        finalize_refusal(ctx, now, swapped_address) is None,
        is_finalized(ctx, after),
        registered(ctx.registry, other),
        other.registry_index.index != ctx.gateway.registry_index.index,
    ensures
        after.registry.wf(),
        other.registry_index.index != ctx.registry.count - 1 ==> registered(after.registry, other),
        other.registry_index.index == ctx.registry.count - 1 ==> registered(
            after.registry,
            Gateway {
                registry_index: RegistryIndex {
                    index: ctx.gateway.registry_index.index,
                    ..other.registry_index
                },
                ..other
            },
        ),
        after.registry.active().len() == ctx.registry.active().len() - 1,
        (forall|i: int|
            0 <= i < ctx.registry.count && i != ctx.gateway.registry_index.index ==> (#[trigger]
            ctx.registry.gateways@[i]).address != ctx.gateway.operator) ==> (forall|i: int|
            0 <= i < after.registry.count ==> (#[trigger] after.registry.gateways@[i]).address
                != ctx.gateway.operator),
{
}

/// A gateway that leaves while an epoch runs moves no gateway of the epoch, itself
/// included.
pub proof fn leaving_moves_no_gateway_in_epoch(
    before: GatewayRegistry,
    after: GatewayRegistry,
    index: int,
    epoch: Epoch,
    k: int,
)
    requires
        before.wf(),
        0 <= index < before.count,
        slot_marked_leaving(before, after, index),
        0 <= k < epoch.active_gateway_count <= 3000,
    ensures
        place_in(after, epoch, k) == place_in(before, epoch, k),
{
    places_rest_on_times_alone(
        before.gateways@,
        after.gateways@,
        before.count as int,
        epoch.start_timestamp as int,
        epoch.active_gateway_count as int,
        k,
    );
}

/// Freeing a slot while an epoch runs leaves a place in the epoch to every gateway
/// that joined by its start, whichever slot moves up.
pub proof fn freeing_a_slot_keeps_gateways_in_epoch(
    before: GatewayRegistry,
    after: GatewayRegistry,
    index: int,
    epoch: Epoch,
    i: int,
)
    requires
        before.wf(),
        0 <= index < before.count,
        slot_freed(before, after, index),
        on_time_count(before.gateways@, before.count as int, epoch.start_timestamp as int)
            <= epoch.active_gateway_count,
        0 <= i < after.count,
        after.gateways@[i].start_timestamp <= epoch.start_timestamp,
    ensures
        exists|k: int| 0 <= k < epoch.active_gateway_count && #[trigger] place_in(after, epoch, k) == i,
{
    let start = epoch.start_timestamp as int;
    let active = epoch.active_gateway_count as int;
    lemma_moving_keeps_slots_placed(
        before.gateways@,
        after.gateways@,
        before.count as int,
        index,
        start,
        active,
        i,
    );
    let k = choose|k: int|
        0 <= k < active && #[trigger] place_of(after.gateways@, after.count as int, start, active, k) == i;
    assert(place_in(after, epoch, k) == i);
}

/// The minimum stake of a gateway that left stays locked for the whole leave
/// period: until then its vault can be neither claimed nor expedited.
pub proof fn minimum_stays_locked(
    ctx: LeaveNetwork,
    now: i64,
    excess_address: Option<(Pubkey, u8)>,
    lookup_address: Option<(Pubkey, u8)>,
    after: ExitAccounts,
    claim: ClaimWithdrawal,
    instant: InstantWithdrawal,
    later: i64,
)
    requires
        leave_refusal(ctx, now, excess_address, lookup_address) is None,
        has_left(ctx, now, excess_address, lookup_address, after),
        after.withdrawal.amount > 0,
        claim.withdrawal == after.withdrawal,
        instant.withdrawal == after.withdrawal,
        later < now + GATEWAY_LEAVE_PERIOD,
    ensures
        claim_refusal(claim, later) is Some,
        instant_refusal(instant) is Some,
{
}

/// A joined gateway leaves at its operator's word. All its operator stake goes into
/// vaults of the operator: the minimum, or all there is, into a protected one that is
/// locked for ninety days, and what exceeds it into an ordinary one that is locked for the
/// withdrawal period. Its slot stays where it is, without a weight. No tokens move.
pub proof fn leaving_locks_the_stake_in_the_operators_vaults(
    ctx: LeaveNetwork,
    now: i64,
    excess_address: Option<(Pubkey, u8)>,
    lookup_address: Option<(Pubkey, u8)>,
    r: Result<Outcome<ExitAccounts, GatewayLeavingEvent>, Refusal>,
)
    requires
        ctx.registry.wf(),
        call_ensures(leave_network_at, (ctx, now, excess_address, lookup_address), r),
    ensures
        r matches Err(e) ==> {
            let (s, g, c) = (ctx.settings, ctx.gateway, ctx.withdrawal_counter);
            let i = g.registry_index.index as int;
            &&& e == Refusal::Gar(GarError::NotOperator) ==> ctx.operator != g.operator
            &&& e == Refusal::Gar(GarError::GatewayNotJoined) ==> g.status != GatewayStatus::Joined
            &&& e == Refusal::Gar(GarError::MissingExcessWithdrawal) ==> g.operator_stake > s.min_operator_stake
                && ctx.excess_withdrawal is None
            &&& e == Refusal::Gar(GarError::InvalidExcessWithdrawalPda) ==> g.operator_stake > s.min_operator_stake
            // It is refused for a cause only.
            &&& {
                ||| ctx.operator != g.operator
                ||| g.status != GatewayStatus::Joined
                ||| now + 7_776_000 > i64::MAX
                ||| now + s.withdrawal_period > i64::MAX || now + s.withdrawal_period < i64::MIN
                ||| c.next_id >= u64::MAX - 1
                ||| s.total_withdrawn + g.operator_stake > u64::MAX
                ||| i >= ctx.registry.count || ctx.registry.gateways@[i].address != g.operator
                ||| g.operator_stake > s.min_operator_stake && (ctx.excess_withdrawal is None || excess_address is None
                    || !ctx.excess_withdrawal->Some_0.empty || ctx.excess_withdrawal->Some_0.key
                    != excess_address->Some_0.0)
                ||| ctx.observer_lookup is Some && lookup_address is None
            }
        },
        r matches Ok(o) ==> {
            let after = o.accounts;
            let (s, s2) = (ctx.settings, after.settings);
            let (g, g2) = (ctx.gateway, after.gateway);
            let (reg, reg2) = (ctx.registry, after.registry);
            let (c, c2) = (ctx.withdrawal_counter, after.withdrawal_counter);
            let w = after.withdrawal;
            let i = g.registry_index.index as int;
            let left = g.operator_stake as int;
            &&& ctx.operator == g.operator
            &&& g.status == GatewayStatus::Joined
            &&& o.transfers@.len() == 0
            &&& i < reg.count && i < 3000
            &&& reg.gateways@[i].address == g.operator
            &&& reg2.count == reg.count
            &&& reg2.gateways@.len() == reg.gateways@.len()
            &&& reg2.gateways@[i].composite_weight == 0
            &&& reg2.gateways@[i].status == 1
            &&& reg2.gateways@[i].address == g.operator
            &&& reg2.gateways@[i].start_timestamp == reg.gateways@[i].start_timestamp
            &&& reg2.gateways@[i].delegated_at_tally == reg.gateways@[i].delegated_at_tally
            &&& forall|j: int| 0 <= j < 3000 && j != i ==> #[trigger] reg2.gateways@[j] == reg.gateways@[j]
            &&& g2.status == GatewayStatus::Leaving
            &&& g2.leave_timestamp == Some(now)
            &&& g2.leave_epoch_duration == ctx.epoch_settings.epoch_duration
            &&& g2.operator_stake == 0
            &&& g2 == (Gateway {
                status: g2.status,
                leave_timestamp: g2.leave_timestamp,
                leave_epoch_duration: g2.leave_epoch_duration,
                operator_stake: 0,
                ..g
            })
            // The protected vault: the minimum at most, for ninety days.
            &&& w.owner == g.operator && w.gateway == g.operator
            &&& w.withdrawal_id == c.next_id
            &&& w.created_at == now
            &&& w.amount > 0 ==> w.available_at == now + 7_776_000 && w.is_protected
            &&& w.amount == 0 ==> w.available_at == now && !w.is_protected
            &&& w.is_exit_vault && !w.is_delegate
            &&& w.bump == ctx.withdrawal_bump
            &&& w.version.major == 1 && w.version.minor == 0 && w.version.patch == 0
            // The vault for the rest.
            &&& after.excess_withdrawal is Some <==> left > s.min_operator_stake
            &&& left <= s.min_operator_stake ==> w.amount == left && c2.next_id == c.next_id + 1
            &&& left > s.min_operator_stake ==> {
                let x = after.excess_withdrawal->Some_0;
                &&& w.amount == s.min_operator_stake
                &&& x.amount == left - s.min_operator_stake
                &&& x.owner == g.operator && x.gateway == g.operator
                &&& x.withdrawal_id == c.next_id + 1
                &&& x.created_at == now
                &&& x.available_at == now + s.withdrawal_period
                &&& x.is_exit_vault && !x.is_delegate && !x.is_protected
                &&& excess_address is Some && x.bump == excess_address->Some_0.1
                &&& x.version.major == 1 && x.version.minor == 0 && x.version.patch == 0
                &&& ctx.excess_withdrawal is Some && ctx.excess_withdrawal->Some_0.empty
                    && ctx.excess_withdrawal->Some_0.key == excess_address->Some_0.0
                &&& c2.next_id == c.next_id + 2
            }
            &&& c.bump != 0 ==> c2 == (WithdrawalCounter { next_id: c2.next_id, ..c })
            &&& c.bump == 0 ==> c2.owner == g.operator && c2.bump == ctx.withdrawal_counter_bump
            &&& c.bump == 0 ==> c2.version.major == 1 && c2.version.minor == 0 && c2.version.patch == 0
            &&& s2 == (GatewaySettings {
                total_staked: s2.total_staked,
                total_withdrawn: s2.total_withdrawn,
                ..s
            })
            &&& falls_by(s.total_staked, s2.total_staked, g.operator_stake as int)
            &&& s2.total_withdrawn == s.total_withdrawn + left
            &&& after.close_observer_lookup <==> ctx.observer_lookup is Some && lookup_address is Some
                && ctx.observer_lookup->Some_0.writable && ctx.observer_lookup->Some_0.key == lookup_address->Some_0.0
            &&& o.event.operator == g.operator
            &&& o.event.timestamp == now
        },
{
}

/// A joined gateway that has failed as many epochs in a row as the settings allow is pruned,
/// whoever asks for it. The minimum stake, or all there is, goes to the treasury; what is
/// left goes into vaults of the operator as when it leaves, all locked for ninety days.
pub proof fn pruning_slashes_the_minimum_and_locks_the_rest(
    ctx: PruneGateway,
    now: i64,
    excess_address: Option<(Pubkey, u8)>,
    lookup_address: Option<(Pubkey, u8)>,
    r: Result<Outcome<ExitAccounts, GatewayPrunedEvent>, Refusal>,
)
    requires
        ctx.registry.wf(),
        call_ensures(prune_gateway_at, (ctx, now, excess_address, lookup_address), r),
    ensures
        r matches Err(e) ==> {
            let (s, g, c) = (ctx.settings, ctx.gateway, ctx.withdrawal_counter);
            let i = g.registry_index.index as int;
            &&& e == Refusal::Gar(GarError::GatewayNotJoined) ==> g.status != GatewayStatus::Joined
            &&& e == Refusal::Gar(GarError::GatewayNotEligible) ==> g.stats.failed_consecutive
                < ctx.epoch_settings.max_consecutive_failures
            &&& e == Refusal::Gar(GarError::MissingExcessWithdrawal) ==> g.operator_stake > 2 * s.min_operator_stake
                && ctx.excess_withdrawal is None
            // It is refused for a cause only.
            &&& {
                ||| ctx.stake_token_account != s.stake_token_account
                ||| ctx.protocol_token_account != s.protocol_token_account
                ||| g.status != GatewayStatus::Joined
                ||| g.stats.failed_consecutive < ctx.epoch_settings.max_consecutive_failures
                ||| now + 7_776_000 > i64::MAX
                ||| c.next_id >= u64::MAX - 1
                ||| s.total_withdrawn + g.operator_stake > u64::MAX
                ||| i >= ctx.registry.count || ctx.registry.gateways@[i].address != g.operator
                ||| g.operator_stake > 2 * s.min_operator_stake && (ctx.excess_withdrawal is None || excess_address is None
                    || !ctx.excess_withdrawal->Some_0.empty || ctx.excess_withdrawal->Some_0.key
                    != excess_address->Some_0.0)
                ||| ctx.observer_lookup is Some && lookup_address is None
            }
        },
        r matches Ok(o) ==> {
            let after = o.accounts;
            let (s, s2) = (ctx.settings, after.settings);
            let (g, g2) = (ctx.gateway, after.gateway);
            let (reg, reg2) = (ctx.registry, after.registry);
            let (c, c2) = (ctx.withdrawal_counter, after.withdrawal_counter);
            let w = after.withdrawal;
            let i = g.registry_index.index as int;
            let slashed = o.event.slashed_amount;
            let left = g.operator_stake - slashed;
            &&& ctx.stake_token_account == s.stake_token_account
            &&& ctx.protocol_token_account == s.protocol_token_account
            &&& g.status == GatewayStatus::Joined
            &&& g.stats.failed_consecutive >= ctx.epoch_settings.max_consecutive_failures
            &&& g.operator_stake >= s.min_operator_stake ==> slashed == s.min_operator_stake
            &&& g.operator_stake < s.min_operator_stake ==> slashed == g.operator_stake
            &&& slashed > 0 ==> o.transfers@ == seq![
                TokenTransfer { from: Holder::StakePool, to: Holder::Treasury, amount: slashed },
            ]
            &&& slashed == 0 ==> o.transfers@.len() == 0
            &&& o.event.pruner == ctx.payer
            &&& i < reg.count && i < 3000
            &&& reg.gateways@[i].address == g.operator
            &&& reg2.count == reg.count
            &&& reg2.gateways@.len() == reg.gateways@.len()
            &&& reg2.gateways@[i].composite_weight == 0
            &&& reg2.gateways@[i].status == 1
            &&& reg2.gateways@[i].address == g.operator
            &&& reg2.gateways@[i].start_timestamp == reg.gateways@[i].start_timestamp
            &&& reg2.gateways@[i].delegated_at_tally == reg.gateways@[i].delegated_at_tally
            &&& forall|j: int| 0 <= j < 3000 && j != i ==> #[trigger] reg2.gateways@[j] == reg.gateways@[j]
            &&& g2.status == GatewayStatus::Leaving
            &&& g2.leave_timestamp == Some(now)
            &&& g2.leave_epoch_duration == ctx.epoch_settings.epoch_duration
            &&& g2.operator_stake == 0
            &&& g2 == (Gateway {
                status: g2.status,
                leave_timestamp: g2.leave_timestamp,
                leave_epoch_duration: g2.leave_epoch_duration,
                operator_stake: 0,
                ..g
            })
            // The protected vault: the minimum at most, for ninety days.
            &&& w.owner == g.operator && w.gateway == g.operator
            &&& w.withdrawal_id == c.next_id
            &&& w.created_at == now
            &&& w.amount > 0 ==> w.available_at == now + 7_776_000 && w.is_protected
            &&& w.amount == 0 ==> w.available_at == now && !w.is_protected
            &&& w.is_exit_vault && !w.is_delegate
            &&& w.bump == ctx.withdrawal_bump
            &&& w.version.major == 1 && w.version.minor == 0 && w.version.patch == 0
            // The vault for the rest.
            &&& after.excess_withdrawal is Some <==> left > s.min_operator_stake
            &&& left <= s.min_operator_stake ==> w.amount == left && c2.next_id == c.next_id + 1
            &&& left > s.min_operator_stake ==> {
                let x = after.excess_withdrawal->Some_0;
                &&& w.amount == s.min_operator_stake
                &&& x.amount == left - s.min_operator_stake
                &&& x.owner == g.operator && x.gateway == g.operator
                &&& x.withdrawal_id == c.next_id + 1
                &&& x.created_at == now
                &&& x.available_at == now + 7_776_000
                &&& x.is_exit_vault && !x.is_delegate && !x.is_protected
                &&& excess_address is Some && x.bump == excess_address->Some_0.1
                &&& x.version.major == 1 && x.version.minor == 0 && x.version.patch == 0
                &&& ctx.excess_withdrawal is Some && ctx.excess_withdrawal->Some_0.empty
                    && ctx.excess_withdrawal->Some_0.key == excess_address->Some_0.0
                &&& c2.next_id == c.next_id + 2
            }
            &&& c.bump != 0 ==> c2 == (WithdrawalCounter { next_id: c2.next_id, ..c })
            &&& c.bump == 0 ==> c2.owner == g.operator && c2.bump == ctx.withdrawal_counter_bump
            &&& c.bump == 0 ==> c2.version.major == 1 && c2.version.minor == 0 && c2.version.patch == 0
            &&& s2 == (GatewaySettings {
                total_staked: s2.total_staked,
                total_withdrawn: s2.total_withdrawn,
                ..s
            })
            &&& falls_by(s.total_staked, s2.total_staked, g.operator_stake as int)
            &&& s2.total_withdrawn == s.total_withdrawn + left
            &&& after.close_observer_lookup <==> ctx.observer_lookup is Some && lookup_address is Some
                && ctx.observer_lookup->Some_0.writable && ctx.observer_lookup->Some_0.key == lookup_address->Some_0.0
            &&& o.event.operator == g.operator
            &&& o.event.timestamp == now
        },
{
}

/// The vaults that leaving and pruning open lie at the addresses of the operator's next
/// withdrawals, and the observer's entry at that of the gateway's observer.
pub proof fn exits_go_by_the_derived_addresses(
    leave: LeaveNetwork,
    left_at: Result<Outcome<ExitAccounts, GatewayLeavingEvent>, Refusal>,
    left: Result<Outcome<ExitAccounts, GatewayLeavingEvent>, Refusal>,
    prune: PruneGateway,
    pruned_at: Result<Outcome<ExitAccounts, GatewayPrunedEvent>, Refusal>,
    pruned: Result<Outcome<ExitAccounts, GatewayPrunedEvent>, Refusal>,
    now: i64,
)
    requires
        leave.registry.wf(),
        prune.registry.wf(),
        leave.withdrawal_counter.next_id < u64::MAX,
        prune.withdrawal_counter.next_id < u64::MAX,
        call_ensures(
            leave_network_at,
            (
                leave,
                now,
                withdrawal_pda(leave.operator, (leave.withdrawal_counter.next_id + 1) as u64, leave.program_id),
                observer_lookup_pda(leave.gateway.observer_address, leave.program_id),
            ),
            left_at,
        ),
        call_ensures(leave_network, (leave, now), left),
        call_ensures(
            prune_gateway_at,
            (
                prune,
                now,
                withdrawal_pda(
                    prune.gateway.operator,
                    (prune.withdrawal_counter.next_id + 1) as u64,
                    prune.program_id,
                ),
                observer_lookup_pda(prune.gateway.observer_address, prune.program_id),
            ),
            pruned_at,
        ),
        call_ensures(prune_gateway, (prune, now), pruned),
    ensures
        match left {
            Err(e) => left_at == Err::<Outcome<ExitAccounts, GatewayLeavingEvent>, Refusal>(e),
            Ok(o) => left_at matches Ok(o2) && o.accounts.gateway == o2.accounts.gateway && o.accounts.settings
                == o2.accounts.settings && o.accounts.withdrawal == o2.accounts.withdrawal
                && o.accounts.excess_withdrawal == o2.accounts.excess_withdrawal && o.accounts.withdrawal_counter
                == o2.accounts.withdrawal_counter && o.accounts.close_observer_lookup
                == o2.accounts.close_observer_lookup && o.accounts.registry.gateways@
                == o2.accounts.registry.gateways@ && o.transfers@ == o2.transfers@ && o.event == o2.event,
        },
        match pruned {
            Err(e) => pruned_at == Err::<Outcome<ExitAccounts, GatewayPrunedEvent>, Refusal>(e),
            Ok(o) => pruned_at matches Ok(o2) && o.accounts.gateway == o2.accounts.gateway && o.accounts.settings
                == o2.accounts.settings && o.accounts.withdrawal == o2.accounts.withdrawal
                && o.accounts.excess_withdrawal == o2.accounts.excess_withdrawal && o.accounts.withdrawal_counter
                == o2.accounts.withdrawal_counter && o.accounts.close_observer_lookup
                == o2.accounts.close_observer_lookup && o.accounts.registry.gateways@
                == o2.accounts.registry.gateways@ && o.transfers@ == o2.transfers@ && o.event == o2.event,
        },
{
}

/// The minimum stake of a gateway that left cannot be claimed before ninety days have
/// passed, nor expedited nor spent before that.
pub proof fn protected_vault_is_locked_for_ninety_days(
    ctx: LeaveNetwork,
    now: i64,
    excess_address: Option<(Pubkey, u8)>,
    lookup_address: Option<(Pubkey, u8)>,
    o: Outcome<ExitAccounts, GatewayLeavingEvent>,
    claim: ClaimWithdrawal,
    t: i64,
    claimed: Result<Outcome<ClaimWithdrawal, WithdrawalClaimedEvent>, GarError>,
    instant: InstantWithdrawal,
    expedited: Result<Outcome<InstantWithdrawal, InstantWithdrawalEvent>, GarError>,
)
    requires
        ctx.registry.wf(),
        ctx.settings.min_operator_stake > 0,
        ctx.gateway.operator_stake > 0,
        call_ensures(leave_network_at, (ctx, now, excess_address, lookup_address), Ok::<_, Refusal>(o)),
        claim.withdrawal == o.accounts.withdrawal,
        claim.owner == ctx.operator,
        claim.stake_token_account == claim.settings.stake_token_account,
        call_ensures(claim_withdrawal, (claim, t), claimed),
        instant.withdrawal == o.accounts.withdrawal,
        call_ensures(instant_withdrawal, (instant, t), expedited),
    ensures
        claimed is Ok <==> t >= now + 7_776_000,
        expedited is Err,
{
}

/// Closing an observer's entry hands all its rent over.
pub proof fn closing_an_entry_hands_its_rent_over(recipient: u64, lookup: u64, r: Result<(u64, u64), GarError>)
    requires
        call_ensures(close_observer_lookup_account, (recipient, lookup), r),
    ensures
        r is Ok <==> recipient + lookup <= u64::MAX,
        r matches Ok((a, b)) ==> a == recipient + lookup && b == 0,
        r matches Err(e) ==> e == GarError::ArithmeticOverflow,
{
}

/// The slot of a gateway that left is kept for ninety days and seven epochs, each as long as
/// when the gateway left or as now, whichever is longer.
pub proof fn slot_is_kept_for_ninety_days_and_seven_epochs(
    gateway: Gateway,
    current: i64,
    r: Result<i64, GarError>,
)
    requires
        call_ensures(finalize_gone_expiry, (&gateway, current), r),
    ensures
        r is Ok <==> gateway.leave_timestamp is Some,
        r matches Err(e) ==> e == GarError::GatewayNotLeaving,
        r matches Ok(t) ==> {
            let left = gateway.leave_timestamp->Some_0;
            let snapshot = gateway.leave_epoch_duration;
            &&& left >= 0 && 0 <= current <= snapshot && left + 7_776_000 + 7 * snapshot <= i64::MAX ==> t == left
                + 7_776_000 + 7 * snapshot
            &&& left >= 0 && 0 <= snapshot <= current && left + 7_776_000 + 7 * current <= i64::MAX ==> t == left
                + 7_776_000 + 7 * current
            &&& snapshot <= 0 && current <= 0 && left + 7_776_000 <= i64::MAX ==> t == left + 7_776_000
        },
{
}

/// A gateway is gone once it is leaving, its time is up and no delegated stake is left. Its
/// slot is freed: the last slot moves into it, the gateway of that slot is told so, the last
/// place is blank, and the registry counts one less.
pub proof fn finalizing_frees_the_slot(
    ctx: FinalizeGone,
    now: i64,
    swapped_address: Option<(Pubkey, u8)>,
    expiry: Result<i64, GarError>,
    r: Result<Outcome<FinalizeGone, GatewayFinalizedEvent>, Refusal>,
)
    requires
        ctx.registry.wf(),
        call_ensures(finalize_gone_expiry, (&ctx.gateway, ctx.epoch_settings.epoch_duration), expiry),
        call_ensures(finalize_gone_at, (ctx, now, swapped_address), r),
    ensures
        r matches Err(e) ==> {
            let g = ctx.gateway;
            let i = g.registry_index.index as int;
            &&& e == Refusal::Gar(GarError::GatewayNotLeaving) ==> g.status != GatewayStatus::Leaving
                || g.leave_timestamp is None
            &&& e == Refusal::Gar(GarError::LeaveWindowNotExpired) ==> expiry is Ok && now < expiry->Ok_0
            &&& e == Refusal::Gar(GarError::DelegationsOutstanding) ==> g.total_delegated_stake != 0
            &&& {
                ||| g.status != GatewayStatus::Leaving || g.leave_timestamp is None
                ||| expiry is Err || now < expiry->Ok_0
                ||| g.total_delegated_stake != 0
                ||| i >= ctx.registry.count || ctx.registry.gateways@[i].address != g.operator
                ||| i != ctx.registry.count - 1 && (ctx.swapped is None || !ctx.swapped->Some_0.writable
                    || !ctx.swapped->Some_0.owned || swapped_address is None || ctx.swapped->Some_0.key
                    != swapped_address->Some_0.0 || ctx.swapped->Some_0.gateway is None)
            }
        },
        r matches Ok(o) ==> {
            let (g, reg, reg2) = (ctx.gateway, ctx.registry, o.accounts.registry);
            let i = g.registry_index.index as int;
            let last = reg.count - 1;
            &&& g.status == GatewayStatus::Leaving
            &&& expiry is Ok && now >= expiry->Ok_0
            &&& g.total_delegated_stake == 0
            &&& i < reg.count && reg.gateways@[i].address == g.operator
            &&& o.accounts.gateway.status == GatewayStatus::Gone
            &&& reg2.count == reg.count - 1
            &&& reg2.gateways@.len() == reg.gateways@.len()
            &&& reg2.gateways@[last].address == Pubkey::zero()
            &&& reg2.gateways@[last].composite_weight == 0
            &&& reg2.gateways@[last].start_timestamp == 0
            &&& i != last ==> reg2.gateways@[i] == reg.gateways@[last]
            &&& forall|j: int| 0 <= j < 3000 && j != i && j != last ==> #[trigger] reg2.gateways@[j] == reg.gateways@[j]
            &&& i == last ==> o.accounts.swapped == ctx.swapped
            &&& i != last ==> {
                let (a, a2) = (ctx.swapped->Some_0, o.accounts.swapped->Some_0);
                &&& ctx.swapped is Some && o.accounts.swapped is Some
                &&& a.writable && a.owned
                &&& swapped_address is Some && a.key == swapped_address->Some_0.0
                &&& a.gateway is Some && a2.gateway is Some
                &&& a2.gateway->Some_0.registry_index.index == i
                &&& a2.gateway->Some_0 == (Gateway {
                    registry_index: a2.gateway->Some_0.registry_index,
                    ..a.gateway->Some_0
                })
                &&& a2.key == a.key
            }
            &&& o.transfers@.len() == 0
            &&& o.event.operator == g.operator
            &&& o.event.pruner == ctx.caller
            &&& o.event.timestamp == now
        },
{
}

/// The account that moves up must lie at the address of the gateway in the last slot.
pub proof fn finalizing_goes_by_the_last_slot(
    ctx: FinalizeGone,
    now: i64,
    at: Result<Outcome<FinalizeGone, GatewayFinalizedEvent>, Refusal>,
    r: Result<Outcome<FinalizeGone, GatewayFinalizedEvent>, Refusal>,
)
    requires
        ctx.registry.wf(),
        ctx.registry.count > 0,
        call_ensures(
            finalize_gone_at,
            (ctx, now, gateway_pda(ctx.registry.gateways@[ctx.registry.count - 1].address, ctx.program_id)),
            at,
        ),
        call_ensures(finalize_gone, (ctx, now), r),
    ensures
        match r {
            Err(e) => at == Err::<Outcome<FinalizeGone, GatewayFinalizedEvent>, Refusal>(e),
            Ok(o) => at matches Ok(o2) && o.accounts.gateway == o2.accounts.gateway && o.accounts.swapped
                == o2.accounts.swapped && o.accounts.registry.count == o2.accounts.registry.count && o.event
                == o2.event && o.transfers@.len() == 0,
        },
{
}

} // verus!
