//! Joining the network, and changing a gateway's settings.

use vstd::prelude::*;
use crate::error::GarError;
use crate::events::{GatewayJoinedEvent, GatewaySettingsUpdatedEvent, ObserverAddressUpdatedEvent};
use crate::instructions::effects::{one_transfer, transfer, Holder, Outcome, TokenTransfer};
use crate::instructions::gateway_exit::registered;
use crate::instructions::places::{lemma_adding_moves_no_place, on_time_count, place_in};
use crate::params::{JoinNetworkParams, UpdateGatewayParams};
use crate::pubkey::Pubkey;
use crate::state::accounts::{
    Gateway, GatewayRegistry, GatewaySettings, GatewaySettings2, GatewaySlot, GatewayStats, GatewayStatus,
    ObserverLookup, RegistryIndex, SchemaVersion,
};
use crate::state::constants::{
    gateway_version, observer_lookup_version, GATEWAY_SETTINGS_FIELD_ALLOW_DELEGATED_STAKING,
    GATEWAY_SETTINGS_FIELD_AUTO_STAKE,
    GATEWAY_SETTINGS_FIELD_DELEGATE_REWARD_SHARE_RATIO, GATEWAY_SETTINGS_FIELD_FQDN, GATEWAY_SETTINGS_FIELD_LABEL,
    GATEWAY_SETTINGS_FIELD_MIN_DELEGATE_STAKE, GATEWAY_SETTINGS_FIELD_NOTE, GATEWAY_SETTINGS_FIELD_PORT,
    GATEWAY_SETTINGS_FIELD_PROPERTIES, GATEWAY_SETTINGS_FIELD_PROTOCOL, MAX_DELEGATE_REWARD_SHARE,
};
use crate::state::epoch::Epoch;
use crate::state::weights::GatewayWeights;
use crate::text::{arweave_id_valid, byte_len, is_valid_arweave_id, text_len};

verus! {

/// The accounts of `join_network`.
#[derive(Clone, Debug)]
pub struct JoinNetwork {
    pub registry: GatewayRegistry,
    pub settings: GatewaySettings,
    pub stake_token_account: Pubkey,
    pub operator: Pubkey,
    /// The bump seeds of the two accounts to be opened.
    pub gateway_bump: u8,
    pub observer_lookup_bump: u8,
}

/// The accounts that `join_network` writes.
#[derive(Clone, Debug)]
pub struct JoinedAccounts {
    pub registry: GatewayRegistry,
    pub settings: GatewaySettings,
    pub gateway: Gateway,
    pub observer_lookup: ObserverLookup,
}

/// The least that may be delegated to a gateway that asks for `wanted`.
pub open spec fn min_delegation(wanted: Option<u64>, settings: GatewaySettings) -> u64 {
    match wanted {
        Some(amount) => amount,
        None => settings.min_delegate_stake,
    }
}

/// An optional text; empty if it is not given.
pub open spec fn text_or_empty(text: Option<String>) -> Seq<char> {
    match text {
        Some(t) => t@,
        None => Seq::empty(),
    }
}

/// Why a gateway cannot join, if so.
pub open spec fn join_refusal(ctx: JoinNetwork, params: JoinNetworkParams) -> Option<GarError> {
    if ctx.stake_token_account != ctx.settings.stake_token_account {
        Some(GarError::InvalidParameter)
    } else if params.operator_stake < ctx.settings.min_operator_stake {
        Some(GarError::InsufficientStake)
    } else if byte_len(params.label@) == 0 || byte_len(params.label@) > 64 {
        Some(GarError::InvalidLabel)
    } else if byte_len(params.fqdn@) == 0 || byte_len(params.fqdn@) > 128 {
        Some(GarError::InvalidFqdn)
    } else if params.delegate_reward_share_ratio * 100 > MAX_DELEGATE_REWARD_SHARE {
        Some(GarError::InvalidRewardShare)
    } else if !arweave_id_valid(text_or_empty(params.properties)) {
        Some(GarError::InvalidParameter)
    } else if params.note is Some && byte_len(text_or_empty(params.note)) > 256 {
        Some(GarError::InvalidParameter)
    } else if min_delegation(params.min_delegate_stake, ctx.settings) < ctx.settings.min_delegate_stake {
        Some(GarError::DelegationBelowMinimum)
    } else if ctx.registry.count >= GatewayRegistry::MAX_GATEWAYS {
        Some(GarError::RegistryFull)
    } else if ctx.settings.total_staked + params.operator_stake > u64::MAX {
        Some(GarError::ArithmeticOverflow)
    } else {
        None
    }
}

/// The gateway that has just joined.
pub open spec fn joined_gateway(ctx: JoinNetwork, params: JoinNetworkParams, now: i64, texts: (String, String)) -> Gateway {
    Gateway {
        operator: ctx.operator,
        label: params.label,
        fqdn: params.fqdn,
        port: params.port,
        protocol: params.protocol,
        properties: texts.0,
        note: texts.1,
        operator_stake: params.operator_stake,
        total_delegated_stake: 0,
        status: GatewayStatus::Joined,
        start_timestamp: now,
        leave_timestamp: None,
        leave_epoch_duration: 0,
        stats: GatewayStats::zero(),
        weights: GatewayWeights::zero(),
        settings: GatewaySettings2 {
            allow_delegated_staking: params.allow_delegated_staking,
            delegate_reward_share_ratio: (params.delegate_reward_share_ratio * 100) as u16,
            min_delegation_amount: min_delegation(params.min_delegate_stake, ctx.settings),
            allowlist_enabled: false,
        },
        registry_index: RegistryIndex { index: ctx.registry.count, _reserved: 0 },
        observer_address: params.observer_address,
        cumulative_reward_per_token: 0,
        bump: ctx.gateway_bump,
        version: gateway_version(),
    }
}

/// Joins the network: stakes what the operator brings, opens the gateway, and
/// gives it the next slot of the registry.
pub fn join_network(ctx: JoinNetwork, params: JoinNetworkParams, now: i64) -> (r: Result<
    Outcome<JoinedAccounts, GatewayJoinedEvent>,
    GarError,
>)
    requires
        ctx.registry.wf(),
    ensures
        match r {
            Err(e) => join_refusal(ctx, params) == Some(e),
            Ok(o) => {
                let gateway = o.accounts.gateway;
                &&& join_refusal(ctx, params) is None
                &&& gateway == joined_gateway(ctx, params, now, (gateway.properties, gateway.note))
                &&& gateway.properties@ == text_or_empty(params.properties)
                &&& gateway.note@ == text_or_empty(params.note)
                &&& o.accounts.observer_lookup == (ObserverLookup {
                    gateway: ctx.operator,
                    bump: ctx.observer_lookup_bump,
                    version: observer_lookup_version(),
                })
                &&& o.accounts.registry == (GatewayRegistry {
                    count: (ctx.registry.count + 1) as u32,
                    gateways: o.accounts.registry.gateways,
                    ..ctx.registry
                })
                &&& slot_added(
                    ctx.registry,
                    o.accounts.registry,
                    ctx.operator,
                    now,
                    GatewaySlot::STATUS_JOINED,
                )
                &&& o.accounts.settings == (GatewaySettings {
                    total_staked: (ctx.settings.total_staked + params.operator_stake) as u64,
                    ..ctx.settings
                })
                &&& o.transfers@ == seq![
                    transfer(Holder::Wallet, Holder::StakePool, params.operator_stake as int),
                ]
                &&& o.event == (GatewayJoinedEvent {
                    operator: ctx.operator,
                    stake: params.operator_stake,
                    fqdn: params.fqdn,
                    timestamp: now,
                })
            },
        },
{
    if ctx.stake_token_account != ctx.settings.stake_token_account {
        return Err(GarError::InvalidParameter);
    }
    if params.operator_stake < ctx.settings.min_operator_stake {
        return Err(GarError::InsufficientStake);
    }
    if text_len(&params.label) == 0 || text_len(&params.label) > 64 {
        return Err(GarError::InvalidLabel);
    }
    if text_len(&params.fqdn) == 0 || text_len(&params.fqdn) > 128 {
        return Err(GarError::InvalidFqdn);
    }
    let ratio: u16 = params.delegate_reward_share_ratio as u16 * 100;
    if ratio > MAX_DELEGATE_REWARD_SHARE {
        return Err(GarError::InvalidRewardShare);
    }
    let properties: String = match params.properties {
        Some(properties) => properties,
        None => String::new(),
    };
    if !is_valid_arweave_id(properties.as_str()) {
        return Err(GarError::InvalidParameter);
    }
    let note: String = match params.note {
        Some(note) => {
            if text_len(&note) > 256 {
                return Err(GarError::InvalidParameter);
            }
            note
        },
        None => String::new(),
    };
    let min_delegation_amount: u64 = match params.min_delegate_stake {
        Some(amount) => amount,
        None => ctx.settings.min_delegate_stake,
    };
    if min_delegation_amount < ctx.settings.min_delegate_stake {
        return Err(GarError::DelegationBelowMinimum);
    }
    if ctx.registry.count as usize >= GatewayRegistry::MAX_GATEWAYS {
        return Err(GarError::RegistryFull);
    }
    let total_staked: u64 = match ctx.settings.total_staked.checked_add(params.operator_stake) {
        None => {
            return Err(GarError::ArithmeticOverflow);
        },
        Some(total) => total,
    };
    let index: u32 = ctx.registry.count;
    let event = GatewayJoinedEvent {
        operator: ctx.operator,
        stake: params.operator_stake,
        fqdn: params.fqdn.clone(),
        timestamp: now,
    };
    let gateway = Gateway {
        operator: ctx.operator,
        label: params.label,
        fqdn: params.fqdn,
        port: params.port,
        protocol: params.protocol,
        properties,
        note,
        operator_stake: params.operator_stake,
        total_delegated_stake: 0,
        status: GatewayStatus::Joined,
        start_timestamp: now,
        leave_timestamp: None,
        leave_epoch_duration: 0,
        stats: GatewayStats::default(),
        weights: GatewayWeights::default(),
        settings: GatewaySettings2 {
            allow_delegated_staking: params.allow_delegated_staking,
            delegate_reward_share_ratio: ratio,
            min_delegation_amount,
            allowlist_enabled: false,
        },
        registry_index: RegistryIndex { index, _reserved: 0 },
        observer_address: params.observer_address,
        cumulative_reward_per_token: 0,
        bump: ctx.gateway_bump,
        version: gateway_version(),
    };
    let observer_lookup = ObserverLookup {
        gateway: ctx.operator,
        bump: ctx.observer_lookup_bump,
        version: observer_lookup_version(),
    };
    let mut registry = ctx.registry;
    registry.gateways.set(
        index as usize,
        GatewaySlot::fresh(ctx.operator, now, GatewaySlot::STATUS_JOINED),
    );
    registry.count = index + 1;
    let mut settings = ctx.settings;
    settings.total_staked = total_staked;
    Ok(
        Outcome {
            accounts: JoinedAccounts { registry, settings, gateway, observer_lookup },
            transfers: one_transfer(Holder::Wallet, Holder::StakePool, params.operator_stake),
            event,
        },
    )
}

/// The registry has one more slot in use, for a gateway without a weight; the
/// other slots are as before.
pub open spec fn slot_added(
    before: GatewayRegistry,
    after: GatewayRegistry,
    address: Pubkey,
    start_timestamp: i64,
    status: u8,
) -> bool {
    let at = before.count as int;
    &&& after.count == before.count + 1
    &&& after.gateways@.len() == before.gateways@.len()
    &&& after.gateways@[at].is_fresh(address, start_timestamp, status)
    &&& forall|i: int| 0 <= i < before.gateways@.len() && i != at ==> after.gateways@[i] == before.gateways@[i]
}

/// The accounts of `update_gateway_settings`.
#[derive(Clone, Debug)]
pub struct UpdateGatewaySettings {
    pub settings: GatewaySettings,
    pub gateway: Gateway,
    pub operator: Pubkey,
}

/// Why a gateway's settings cannot be changed, if so.
pub open spec fn update_refusal(ctx: UpdateGatewaySettings, params: UpdateGatewayParams) -> Option<GarError> {
    if ctx.gateway.operator != ctx.operator {
        Some(GarError::NotOperator)
    } else if ctx.gateway.status != GatewayStatus::Joined {
        Some(GarError::GatewayLeaving)
    } else if params.label matches Some(t) && (byte_len(t@) == 0 || byte_len(t@) > 64) {
        Some(GarError::InvalidLabel)
    } else if params.fqdn matches Some(t) && (byte_len(t@) == 0 || byte_len(t@) > 128) {
        Some(GarError::InvalidFqdn)
    } else if params.properties matches Some(t) && !arweave_id_valid(t@) {
        Some(GarError::InvalidParameter)
    } else if params.note matches Some(t) && byte_len(t@) > 256 {
        Some(GarError::InvalidParameter)
    } else if params.delegate_reward_share_ratio matches Some(ratio) && ratio * 100 > MAX_DELEGATE_REWARD_SHARE {
        Some(GarError::InvalidRewardShare)
    } else if params.min_delegate_stake matches Some(amount) && amount < ctx.settings.min_delegate_stake {
        Some(GarError::DelegationBelowMinimum)
    } else {
        None
    }
}

/// The value to be set, or the one that stands.
pub open spec fn or_keep<T>(wanted: Option<T>, current: T) -> T {
    match wanted {
        Some(value) => value,
        None => current,
    }
}

/// A gateway after its settings have been changed.
pub open spec fn updated_gateway(gateway: Gateway, params: UpdateGatewayParams) -> Gateway {
    Gateway {
        label: or_keep(params.label, gateway.label),
        fqdn: or_keep(params.fqdn, gateway.fqdn),
        port: or_keep(params.port, gateway.port),
        protocol: or_keep(params.protocol, gateway.protocol),
        properties: or_keep(params.properties, gateway.properties),
        note: or_keep(params.note, gateway.note),
        settings: GatewaySettings2 {
            allow_delegated_staking: or_keep(
                params.allow_delegated_staking,
                gateway.settings.allow_delegated_staking,
            ),
            delegate_reward_share_ratio: match params.delegate_reward_share_ratio {
                Some(ratio) => (ratio * 100) as u16,
                None => gateway.settings.delegate_reward_share_ratio,
            },
            min_delegation_amount: or_keep(
                params.min_delegate_stake,
                gateway.settings.min_delegation_amount,
            ),
            ..gateway.settings
        },
        ..gateway
    }
}

/// The bit of a setting, if it is to be changed.
pub open spec fn bit_if(changed: bool, bit: u32) -> int {
    if changed {
        bit as int
    } else {
        0
    }
}

/// One bit for each setting that was changed.
pub open spec fn changed_fields(params: UpdateGatewayParams) -> int {
    bit_if(params.label is Some, GATEWAY_SETTINGS_FIELD_LABEL) + bit_if(
        params.fqdn is Some,
        GATEWAY_SETTINGS_FIELD_FQDN,
    ) + bit_if(params.port is Some, GATEWAY_SETTINGS_FIELD_PORT) + bit_if(
        params.protocol is Some,
        GATEWAY_SETTINGS_FIELD_PROTOCOL,
    ) + bit_if(params.properties is Some, GATEWAY_SETTINGS_FIELD_PROPERTIES) + bit_if(
        params.note is Some,
        GATEWAY_SETTINGS_FIELD_NOTE,
    ) + bit_if(params.allow_delegated_staking is Some, GATEWAY_SETTINGS_FIELD_ALLOW_DELEGATED_STAKING) + bit_if(
        params.delegate_reward_share_ratio is Some,
        GATEWAY_SETTINGS_FIELD_DELEGATE_REWARD_SHARE_RATIO,
    ) + bit_if(params.min_delegate_stake is Some, GATEWAY_SETTINGS_FIELD_MIN_DELEGATE_STAKE)
}

/// Changes the settings that are given. The event says which they were.
pub fn update_gateway_settings(ctx: UpdateGatewaySettings, params: UpdateGatewayParams, now: i64) -> (r: Result<
    Outcome<UpdateGatewaySettings, GatewaySettingsUpdatedEvent>,
    GarError,
>)
    ensures
        match r {
            Err(e) => update_refusal(ctx, params) == Some(e),
            Ok(o) => {
                &&& update_refusal(ctx, params) is None
                &&& o.accounts == (UpdateGatewaySettings {
                    gateway: updated_gateway(ctx.gateway, params),
                    ..ctx
                })
                &&& o.transfers@.len() == 0
                &&& o.event == (GatewaySettingsUpdatedEvent {
                    operator: ctx.gateway.operator,
                    fields_changed: changed_fields(params) as u32,
                    timestamp: now,
                })
            },
        },
{
    let mut ctx = ctx;
    match check_update(&ctx, &params) {
        Err(e) => {
            return Err(e);
        },
        Ok(()) => {},
    }
    let fields_changed: u32 = mask_of(&params);
    ctx.gateway.label = replaced(params.label, ctx.gateway.label);
    ctx.gateway.fqdn = replaced(params.fqdn, ctx.gateway.fqdn);
    ctx.gateway.port = replaced(params.port, ctx.gateway.port);
    ctx.gateway.protocol = replaced(params.protocol, ctx.gateway.protocol);
    ctx.gateway.properties = replaced(params.properties, ctx.gateway.properties);
    ctx.gateway.note = replaced(params.note, ctx.gateway.note);
    ctx.gateway.settings.allow_delegated_staking = replaced(
        params.allow_delegated_staking,
        ctx.gateway.settings.allow_delegated_staking,
    );
    ctx.gateway.settings.delegate_reward_share_ratio = match params.delegate_reward_share_ratio {
        Some(ratio) => ratio as u16 * 100,
        None => ctx.gateway.settings.delegate_reward_share_ratio,
    };
    ctx.gateway.settings.min_delegation_amount = replaced(
        params.min_delegate_stake,
        ctx.gateway.settings.min_delegation_amount,
    );
    let event = GatewaySettingsUpdatedEvent {
        operator: ctx.gateway.operator,
        fields_changed,
        timestamp: now,
    };
    Ok(Outcome { accounts: ctx, transfers: Vec::new(), event })
}

fn replaced<T>(wanted: Option<T>, current: T) -> (r: T)
    ensures
        r == or_keep(wanted, current),
{
    match wanted {
        Some(value) => value,
        None => current,
    }
}

fn bit_unless_none<T>(wanted: &Option<T>, bit: u32) -> (r: u32)
    ensures
        r == bit_if(wanted is Some, bit),
{
    match wanted {
        Some(_) => bit,
        None => 0,
    }
}

fn mask_of(params: &UpdateGatewayParams) -> (r: u32)
    ensures
        r == changed_fields(*params),
{
    bit_unless_none(&params.label, GATEWAY_SETTINGS_FIELD_LABEL) + bit_unless_none(
        &params.fqdn,
        GATEWAY_SETTINGS_FIELD_FQDN,
    ) + bit_unless_none(&params.port, GATEWAY_SETTINGS_FIELD_PORT) + bit_unless_none(
        &params.protocol,
        GATEWAY_SETTINGS_FIELD_PROTOCOL,
    ) + bit_unless_none(&params.properties, GATEWAY_SETTINGS_FIELD_PROPERTIES) + bit_unless_none(
        &params.note,
        GATEWAY_SETTINGS_FIELD_NOTE,
    ) + bit_unless_none(
        &params.allow_delegated_staking,
        GATEWAY_SETTINGS_FIELD_ALLOW_DELEGATED_STAKING,
    ) + bit_unless_none(
        &params.delegate_reward_share_ratio,
        GATEWAY_SETTINGS_FIELD_DELEGATE_REWARD_SHARE_RATIO,
    ) + bit_unless_none(&params.min_delegate_stake, GATEWAY_SETTINGS_FIELD_MIN_DELEGATE_STAKE)
}

fn check_update(ctx: &UpdateGatewaySettings, params: &UpdateGatewayParams) -> (r: Result<(), GarError>)
    ensures
        match r {
            Err(e) => update_refusal(*ctx, *params) == Some(e),
            Ok(()) => update_refusal(*ctx, *params) is None,
        },
{
    if ctx.gateway.operator != ctx.operator {
        return Err(GarError::NotOperator);
    }
    if ctx.gateway.status != GatewayStatus::Joined {
        return Err(GarError::GatewayLeaving);
    }
    if let Some(label) = &params.label {
        if text_len(label) == 0 || text_len(label) > 64 {
            return Err(GarError::InvalidLabel);
        }
    }
    if let Some(fqdn) = &params.fqdn {
        if text_len(fqdn) == 0 || text_len(fqdn) > 128 {
            return Err(GarError::InvalidFqdn);
        }
    }
    if let Some(properties) = &params.properties {
        if !is_valid_arweave_id(properties.as_str()) {
            return Err(GarError::InvalidParameter);
        }
    }
    if let Some(note) = &params.note {
        if text_len(note) > 256 {
            return Err(GarError::InvalidParameter);
        }
    }
    if let Some(ratio) = params.delegate_reward_share_ratio {
        if ratio as u16 * 100 > MAX_DELEGATE_REWARD_SHARE {
            return Err(GarError::InvalidRewardShare);
        }
    }
    if let Some(amount) = params.min_delegate_stake {
        if amount < ctx.settings.min_delegate_stake {
            return Err(GarError::DelegationBelowMinimum);
        }
    }
    Ok(())
}

/// The accounts of `update_observer_address`. The entry of the old observer is
/// closed along with it.
#[derive(Clone, Debug)]
pub struct UpdateObserverAddress {
    pub gateway: Gateway,
    pub operator: Pubkey,
    /// The bump seed of the new observer's entry.
    pub new_observer_lookup_bump: u8,
}

/// The accounts that `update_observer_address` writes.
#[derive(Clone, Debug)]
pub struct ObserverUpdated {
    pub gateway: Gateway,
    pub new_observer_lookup: ObserverLookup,
}

/// Why a gateway's observer cannot be changed, if so.
pub open spec fn observer_refusal(ctx: UpdateObserverAddress, new_observer: Pubkey) -> Option<GarError> {
    if ctx.gateway.operator != ctx.operator {
        Some(GarError::NotOperator)
    } else if ctx.gateway.status != GatewayStatus::Joined {
        Some(GarError::GatewayLeaving)
    } else if new_observer == ctx.gateway.observer_address {
        Some(GarError::InvalidParameter)
    } else {
        None
    }
}

/// Has another address submit a gateway's observations.
pub fn update_observer_address(ctx: UpdateObserverAddress, new_observer: Pubkey, now: i64) -> (r: Result<
    Outcome<ObserverUpdated, ObserverAddressUpdatedEvent>,
    GarError,
>)
    ensures
        match r {
            Err(e) => observer_refusal(ctx, new_observer) == Some(e),
            Ok(o) => {
                &&& observer_refusal(ctx, new_observer) is None
                &&& o.accounts == (ObserverUpdated {
                    gateway: Gateway { observer_address: new_observer, ..ctx.gateway },
                    new_observer_lookup: ObserverLookup {
                        gateway: ctx.operator,
                        bump: ctx.new_observer_lookup_bump,
                        version: observer_lookup_version(),
                    },
                })
                &&& o.transfers@.len() == 0
                &&& o.event == (ObserverAddressUpdatedEvent {
                    operator: ctx.gateway.operator,
                    new_observer,
                    timestamp: now,
                })
            },
        },
{
    if ctx.gateway.operator != ctx.operator {
        return Err(GarError::NotOperator);
    }
    if ctx.gateway.status != GatewayStatus::Joined {
        return Err(GarError::GatewayLeaving);
    }
    if new_observer == ctx.gateway.observer_address {
        return Err(GarError::InvalidParameter);
    }
    let mut gateway = ctx.gateway;
    gateway.observer_address = new_observer;
    let new_observer_lookup = ObserverLookup {
        gateway: ctx.operator,
        bump: ctx.new_observer_lookup_bump,
        version: observer_lookup_version(),
    };
    let event = ObserverAddressUpdatedEvent { operator: gateway.operator, new_observer, timestamp: now };
    Ok(
        Outcome {
            accounts: ObserverUpdated { gateway, new_observer_lookup },
            transfers: Vec::new(),
            event,
        },
    )
}

/// Joining gives the new gateway the place that it names, and takes no place away
/// from another.
pub proof fn joining_keeps_places(before: GatewayRegistry, after: GatewayRegistry, gateway: Gateway, now: i64, other: Gateway)
    requires
        before.wf(),
        before.count < GatewayRegistry::MAX_GATEWAYS,
        slot_added(before, after, gateway.operator, now, GatewaySlot::STATUS_JOINED),
        gateway.registry_index.index == before.count,
        registered(before, other),
    ensures
        after.wf(),
        registered(after, gateway),
        registered(after, other),
{
}

/// A gateway that joins while an epoch runs moves no gateway of the epoch.
pub proof fn joining_moves_no_gateway_in_epoch(
    before: GatewayRegistry,
    after: GatewayRegistry,
    address: Pubkey,
    start_timestamp: i64,
    status: u8,
    epoch: Epoch,
    k: int,
)
    requires
        before.wf(),
        before.count < GatewayRegistry::MAX_GATEWAYS,
        slot_added(before, after, address, start_timestamp, status),
        epoch.active_gateway_count == on_time_count(
            before.gateways@,
            before.count as int,
            epoch.start_timestamp as int,
        ),
        0 <= k < epoch.active_gateway_count,
    ensures
        place_in(after, epoch, k) == place_in(before, epoch, k),
{
    lemma_adding_moves_no_place(
        before.gateways@,
        after.gateways@,
        before.count as int,
        epoch.start_timestamp as int,
        epoch.active_gateway_count as int,
        k,
    );
}

/// The event tells for each setting whether it was changed.
pub proof fn changed_fields_are_told_apart(params: UpdateGatewayParams)
    ensures
        ({
            let mask = changed_fields(params) as u32;
            &&& 0 <= changed_fields(params) <= u32::MAX
            &&& (mask & GATEWAY_SETTINGS_FIELD_LABEL != 0) == (params.label is Some)
            &&& (mask & GATEWAY_SETTINGS_FIELD_FQDN != 0) == (params.fqdn is Some)
            &&& (mask & GATEWAY_SETTINGS_FIELD_PORT != 0) == (params.port is Some)
            &&& (mask & GATEWAY_SETTINGS_FIELD_PROTOCOL != 0) == (params.protocol is Some)
            &&& (mask & GATEWAY_SETTINGS_FIELD_PROPERTIES != 0) == (params.properties is Some)
            &&& (mask & GATEWAY_SETTINGS_FIELD_NOTE != 0) == (params.note is Some)
            &&& mask & GATEWAY_SETTINGS_FIELD_AUTO_STAKE == 0
            &&& (mask & GATEWAY_SETTINGS_FIELD_ALLOW_DELEGATED_STAKING != 0) == (
            params.allow_delegated_staking is Some)
            &&& (mask & GATEWAY_SETTINGS_FIELD_DELEGATE_REWARD_SHARE_RATIO != 0) == (
            params.delegate_reward_share_ratio is Some)
            &&& (mask & GATEWAY_SETTINGS_FIELD_MIN_DELEGATE_STAKE != 0) == (params.min_delegate_stake is Some)
        }),
{
    let a: bool = params.label is Some;
    let b: bool = params.fqdn is Some;
    let c: bool = params.port is Some;
    let d: bool = params.protocol is Some;
    let e: bool = params.properties is Some;
    let f: bool = params.note is Some;
    let g: bool = params.allow_delegated_staking is Some;
    let h: bool = params.delegate_reward_share_ratio is Some;
    let i: bool = params.min_delegate_stake is Some;
    let mask: u32 = changed_fields(params) as u32;
    assert(mask == (if a { 1u32 } else { 0u32 }) + (if b { 2u32 } else { 0u32 }) + (if c { 4u32 } else { 0u32 }) + (if d { 8u32 } else { 0u32 }) + (
    if e { 16u32 } else { 0u32 }) + (if f { 32u32 } else { 0u32 }) + (if g { 128u32 } else { 0u32 }) + (if h { 256u32 } else { 0u32 }) + (if i {
        512u32
    } else {
        0u32
    }));
    assert({
        &&& (mask & 1 != 0) == a
        &&& (mask & 2 != 0) == b
        &&& (mask & 4 != 0) == c
        &&& (mask & 8 != 0) == d
        &&& (mask & 16 != 0) == e
        &&& (mask & 32 != 0) == f
        &&& mask & 64 == 0
        &&& (mask & 128 != 0) == g
        &&& (mask & 256 != 0) == h
        &&& (mask & 512 != 0) == i
    }) by (bit_vector)
        requires
            mask == (if a { 1u32 } else { 0u32 }) + (if b { 2u32 } else { 0u32 }) + (if c { 4u32 } else { 0u32 }) + (if d { 8u32 } else { 0u32 }) + (
            if e { 16u32 } else { 0u32 }) + (if f { 32u32 } else { 0u32 }) + (if g { 128u32 } else { 0u32 }) + (if h { 256u32 } else { 0u32 }) + (if i {
                512u32
            } else {
                0u32
            }),
    ;
}

/// A gateway joins with at least the minimum stake, which moves from the operator's wallet
/// into the stake pool and onto the counter of staked tokens. It takes the next slot of
/// the registry, and starts now, without delegated stake, record, weights or rewards.
pub proof fn joining_stakes_and_registers_the_gateway(
    ctx: JoinNetwork,
    params: JoinNetworkParams,
    now: i64,
    r: Result<Outcome<JoinedAccounts, GatewayJoinedEvent>, GarError>,
)
    requires
        ctx.registry.wf(),
        call_ensures(join_network, (ctx, params, now), r),
    ensures
        r matches Err(e) ==> match e {
            GarError::InvalidParameter => {
                ||| ctx.stake_token_account != ctx.settings.stake_token_account
                ||| params.properties is Some && !arweave_id_valid(params.properties->Some_0@)
                ||| params.note is Some && byte_len(params.note->Some_0@) > 256
            },
            GarError::InsufficientStake => params.operator_stake < ctx.settings.min_operator_stake,
            GarError::InvalidLabel => byte_len(params.label@) == 0 || byte_len(params.label@) > 64,
            GarError::InvalidFqdn => byte_len(params.fqdn@) == 0 || byte_len(params.fqdn@) > 128,
            GarError::InvalidRewardShare => params.delegate_reward_share_ratio > 95,
            GarError::DelegationBelowMinimum => params.min_delegate_stake is Some
                && params.min_delegate_stake->Some_0 < ctx.settings.min_delegate_stake,
            GarError::RegistryFull => ctx.registry.count >= 3000,
            GarError::ArithmeticOverflow => ctx.settings.total_staked + params.operator_stake > u64::MAX,
            _ => false,
        },
        r matches Ok(o) ==> {
            let (s, s2) = (ctx.settings, o.accounts.settings);
            let (reg, reg2) = (ctx.registry, o.accounts.registry);
            let g = o.accounts.gateway;
            let n = reg.count as int;
            &&& ctx.stake_token_account == s.stake_token_account
            &&& params.operator_stake >= s.min_operator_stake
            &&& 1 <= byte_len(params.label@) <= 64
            &&& 1 <= byte_len(params.fqdn@) <= 128
            &&& params.delegate_reward_share_ratio <= 95
            &&& params.note is Some ==> byte_len(params.note->Some_0@) <= 256
            &&& params.properties is Some ==> arweave_id_valid(params.properties->Some_0@)
            &&& n < 3000
            &&& o.transfers@ == seq![
                TokenTransfer { from: Holder::Wallet, to: Holder::StakePool, amount: params.operator_stake },
            ]
            &&& s2.total_staked == s.total_staked + params.operator_stake
            &&& s2 == (GatewaySettings { total_staked: s2.total_staked, ..s })
            &&& reg2.count == n + 1
            &&& reg2.gateways@.len() == reg.gateways@.len()
            &&& reg2.gateways@[n].address == ctx.operator
            &&& reg2.gateways@[n].start_timestamp == now
            &&& reg2.gateways@[n].composite_weight == 0
            &&& reg2.gateways@[n].status == 0
            &&& reg2.gateways@[n].delegated_at_tally == 0
            &&& forall|i: int| 0 <= i < 3000 && i != n ==> #[trigger] reg2.gateways@[i] == reg.gateways@[i]
            &&& g.operator == ctx.operator
            &&& g.operator_stake == params.operator_stake
            &&& g.total_delegated_stake == 0
            &&& g.cumulative_reward_per_token == 0
            &&& g.status == GatewayStatus::Joined
            &&& g.start_timestamp == now
            &&& g.leave_timestamp is None
            &&& g.leave_epoch_duration == 0
            &&& g.registry_index.index == n
            &&& g.observer_address == params.observer_address
            &&& g.label@ == params.label@ && g.fqdn@ == params.fqdn@
            &&& g.port == params.port && g.protocol == params.protocol
            &&& params.properties is Some ==> g.properties@ == params.properties->Some_0@
            &&& params.properties is None ==> g.properties@.len() == 0
            &&& params.note is Some ==> g.note@ == params.note->Some_0@
            &&& params.note is None ==> g.note@.len() == 0
            &&& g.settings.allow_delegated_staking == params.allow_delegated_staking
            &&& g.settings.delegate_reward_share_ratio == 100 * params.delegate_reward_share_ratio
            &&& g.settings.min_delegation_amount >= s.min_delegate_stake
            &&& params.min_delegate_stake is Some ==> g.settings.min_delegation_amount
                == params.min_delegate_stake->Some_0
            &&& params.min_delegate_stake is None ==> g.settings.min_delegation_amount == s.min_delegate_stake
            &&& !g.settings.allowlist_enabled
            &&& g.stats.total_epochs == 0 && g.stats.passed_epochs == 0 && g.stats.failed_epochs == 0
            &&& g.stats.prescribed_epochs == 0 && g.stats.observed_epochs == 0
            &&& g.stats.failed_consecutive == 0 && g.stats.passed_consecutive == 0
            &&& g.weights.composite_weight == 0 && g.weights.weights_epoch == 0
            &&& g.bump == ctx.gateway_bump
            &&& g.version.major == 1 && g.version.minor == 1 && g.version.patch == 0
            &&& o.accounts.observer_lookup.gateway == ctx.operator
            &&& o.accounts.observer_lookup.bump == ctx.observer_lookup_bump
            &&& o.accounts.observer_lookup.version == (SchemaVersion { major: 1, minor: 0, patch: 0 })
            &&& o.event.operator == ctx.operator
            &&& o.event.stake == params.operator_stake
            &&& o.event.fqdn@ == params.fqdn@
            &&& o.event.timestamp == now
        },
{
    if params.properties is None {
        let nothing = Seq::<char>::empty();
        assert(arweave_id_valid(nothing));
    }
}

/// Only the operator of a joined gateway changes its settings: those that are given take
/// the new value, the others and all the rest of the gateway stay, and no stake moves.
pub proof fn update_changes_what_is_given(
    ctx: UpdateGatewaySettings,
    params: UpdateGatewayParams,
    now: i64,
    r: Result<Outcome<UpdateGatewaySettings, GatewaySettingsUpdatedEvent>, GarError>,
)
    requires
        call_ensures(update_gateway_settings, (ctx, params, now), r),
    ensures
        r matches Err(e) ==> match e {
            GarError::NotOperator => ctx.operator != ctx.gateway.operator,
            GarError::GatewayLeaving => ctx.gateway.status != GatewayStatus::Joined,
            GarError::InvalidLabel => params.label is Some && (byte_len(params.label->Some_0@) == 0 || byte_len(
                params.label->Some_0@,
            ) > 64),
            GarError::InvalidFqdn => params.fqdn is Some && (byte_len(params.fqdn->Some_0@) == 0 || byte_len(
                params.fqdn->Some_0@,
            ) > 128),
            GarError::InvalidParameter => {
                ||| params.properties is Some && !arweave_id_valid(params.properties->Some_0@)
                ||| params.note is Some && byte_len(params.note->Some_0@) > 256
            },
            GarError::InvalidRewardShare => params.delegate_reward_share_ratio is Some
                && params.delegate_reward_share_ratio->Some_0 > 95,
            GarError::DelegationBelowMinimum => params.min_delegate_stake is Some
                && params.min_delegate_stake->Some_0 < ctx.settings.min_delegate_stake,
            _ => false,
        },
        r matches Ok(o) ==> {
            let (g, g2) = (ctx.gateway, o.accounts.gateway);
            &&& ctx.operator == g.operator
            &&& g.status == GatewayStatus::Joined
            &&& params.label is Some ==> g2.label == params.label->Some_0 && 1 <= byte_len(g2.label@) <= 64
            &&& params.label is None ==> g2.label == g.label
            &&& params.fqdn is Some ==> g2.fqdn == params.fqdn->Some_0 && 1 <= byte_len(g2.fqdn@) <= 128
            &&& params.fqdn is None ==> g2.fqdn == g.fqdn
            &&& params.port is Some ==> g2.port == params.port->Some_0
            &&& params.port is None ==> g2.port == g.port
            &&& params.protocol is Some ==> g2.protocol == params.protocol->Some_0
            &&& params.protocol is None ==> g2.protocol == g.protocol
            &&& params.properties is Some ==> g2.properties == params.properties->Some_0 && arweave_id_valid(
                g2.properties@,
            )
            &&& params.properties is None ==> g2.properties == g.properties
            &&& params.note is Some ==> g2.note == params.note->Some_0 && byte_len(g2.note@) <= 256
            &&& params.note is None ==> g2.note == g.note
            &&& params.allow_delegated_staking is Some ==> g2.settings.allow_delegated_staking
                == params.allow_delegated_staking->Some_0
            &&& params.allow_delegated_staking is None ==> g2.settings.allow_delegated_staking
                == g.settings.allow_delegated_staking
            &&& params.delegate_reward_share_ratio is Some ==> g2.settings.delegate_reward_share_ratio == 100
                * params.delegate_reward_share_ratio->Some_0 && params.delegate_reward_share_ratio->Some_0 <= 95
            &&& params.delegate_reward_share_ratio is None ==> g2.settings.delegate_reward_share_ratio
                == g.settings.delegate_reward_share_ratio
            &&& params.min_delegate_stake is Some ==> g2.settings.min_delegation_amount
                == params.min_delegate_stake->Some_0 && g2.settings.min_delegation_amount
                >= ctx.settings.min_delegate_stake
            &&& params.min_delegate_stake is None ==> g2.settings.min_delegation_amount
                == g.settings.min_delegation_amount
            &&& g2.settings.allowlist_enabled == g.settings.allowlist_enabled
            &&& g2 == (Gateway {
                label: g2.label,
                fqdn: g2.fqdn,
                port: g2.port,
                protocol: g2.protocol,
                properties: g2.properties,
                note: g2.note,
                settings: g2.settings,
                ..g
            })
            &&& o.accounts.settings == ctx.settings
            &&& o.transfers@.len() == 0
            &&& o.event.operator == g.operator
            &&& o.event.timestamp == now
            &&& o.event.fields_changed == (if params.label is Some {
                1int
            } else {
                0
            }) + (if params.fqdn is Some {
                2int
            } else {
                0
            }) + (if params.port is Some {
                4int
            } else {
                0
            }) + (if params.protocol is Some {
                8int
            } else {
                0
            }) + (if params.properties is Some {
                16int
            } else {
                0
            }) + (if params.note is Some {
                32int
            } else {
                0
            }) + (if params.allow_delegated_staking is Some {
                128int
            } else {
                0
            }) + (if params.delegate_reward_share_ratio is Some {
                256int
            } else {
                0
            }) + (if params.min_delegate_stake is Some {
                512int
            } else {
                0
            })
        },
{
}

/// Only the operator of a joined gateway appoints another observer, who is entered as the
/// observer of that gateway; nothing else of the gateway changes.
pub proof fn operator_appoints_the_observer(
    ctx: UpdateObserverAddress,
    new_observer: Pubkey,
    now: i64,
    r: Result<Outcome<ObserverUpdated, ObserverAddressUpdatedEvent>, GarError>,
)
    requires
        call_ensures(update_observer_address, (ctx, new_observer, now), r),
    ensures
        r is Ok <==> ctx.operator == ctx.gateway.operator && ctx.gateway.status == GatewayStatus::Joined && new_observer
            != ctx.gateway.observer_address,
        r matches Err(e) ==> match e {
            GarError::NotOperator => ctx.operator != ctx.gateway.operator,
            GarError::GatewayLeaving => ctx.gateway.status != GatewayStatus::Joined,
            GarError::InvalidParameter => new_observer == ctx.gateway.observer_address,
            _ => false,
        },
        r matches Ok(o) ==> {
            let g2 = o.accounts.gateway;
            &&& g2.observer_address == new_observer
            &&& g2 == (Gateway { observer_address: g2.observer_address, ..ctx.gateway })
            &&& o.accounts.new_observer_lookup.gateway == ctx.gateway.operator
            &&& o.accounts.new_observer_lookup.bump == ctx.new_observer_lookup_bump
            &&& o.accounts.new_observer_lookup.version == (SchemaVersion { major: 1, minor: 0, patch: 0 })
            &&& o.transfers@.len() == 0
            &&& o.event.operator == ctx.gateway.operator
            &&& o.event.new_observer == new_observer
            &&& o.event.timestamp == now
        },
{
}

} // verus!
