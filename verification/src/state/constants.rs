//! Constants of the program.

use vstd::prelude::*;
use crate::state::accounts::SchemaVersion;

verus! {

/// Precision of the reward-per-share accumulator: fine enough that a small
/// reward over a large pool does not round to zero.
pub const REWARD_PRECISION: u128 = 1_000_000_000_000_000_000;

/// The most sources that one funding plan may draw on.
pub const MAX_FUNDING_SOURCES: usize = 5;

/// The most delegations that one funding plan may draw on.
pub const MAX_DELEGATION_SOURCES: usize = 3;

/// Seed `name_registry`. The registry of names of the name service.
pub const ARNS_NAME_REGISTRY_SEED: [u8; 13] = [110, 97, 109, 101, 95, 114, 101, 103, 105, 115, 116, 114, 121];

/// Seed `gateway_registry`. The gateway registry.
pub const REGISTRY_SEED: [u8; 16] = [103, 97, 116, 101, 119, 97, 121, 95, 114, 101, 103, 105, 115, 116, 114, 121];

/// Seed `gar_settings`. The gateway settings.
pub const SETTINGS_SEED: [u8; 12] = [103, 97, 114, 95, 115, 101, 116, 116, 105, 110, 103, 115];

/// Seed `gateway`. A gateway, followed by its operator.
pub const GATEWAY_SEED: [u8; 7] = [103, 97, 116, 101, 119, 97, 121];

/// Seed `delegation`. A delegation, followed by the gateway and the delegator.
pub const DELEGATION_SEED: [u8; 10] = [100, 101, 108, 101, 103, 97, 116, 105, 111, 110];

/// Seed `withdrawal`. A withdrawal, followed by its owner and its number.
pub const WITHDRAWAL_SEED: [u8; 10] = [119, 105, 116, 104, 100, 114, 97, 119, 97, 108];

/// Seed `withdrawal_counter`. A withdrawal counter, followed by its owner.
pub const WITHDRAWAL_COUNTER_SEED: [u8; 18] = [119, 105, 116, 104, 100, 114, 97, 119, 97, 108, 95, 99, 111, 117, 110, 116, 101, 114];

/// Seed `allowlist`. An allowlist entry, followed by the gateway and the delegate.
pub const ALLOWLIST_SEED: [u8; 9] = [97, 108, 108, 111, 119, 108, 105, 115, 116];

/// Seed `observer_lookup`. An observer index entry, followed by the observer.
pub const OBSERVER_LOOKUP_SEED: [u8; 15] = [111, 98, 115, 101, 114, 118, 101, 114, 95, 108, 111, 111, 107, 117, 112];

/// Seed `epoch`. An epoch, followed by its number.
pub const EPOCH_SEED: [u8; 5] = [101, 112, 111, 99, 104];

/// Seed `epoch_settings`. The epoch settings.
pub const EPOCH_SETTINGS_SEED: [u8; 14] = [101, 112, 111, 99, 104, 95, 115, 101, 116, 116, 105, 110, 103, 115];

/// Seed `observation`. An observation, followed by the epoch's number and the observer.
pub const OBSERVATION_SEED: [u8; 11] = [111, 98, 115, 101, 114, 118, 97, 116, 105, 111, 110];

/// Seed `redelegation`. A redelegation record, followed by the delegator.
pub const REDELEGATION_SEED: [u8; 12] = [114, 101, 100, 101, 108, 101, 103, 97, 116, 105, 111, 110];

/// Fixed-point scale of rates and weights: one is `1_000_000`.
pub const RATE_SCALE: u64 = 1_000_000;

/// How long a withdrawal is locked: 30 days.
pub const WITHDRAWAL_LOCK_PERIOD: i64 = 30 * 86_400;

/// How long a leaving gateway's protected stake is locked: 90 days.
pub const GATEWAY_LEAVE_PERIOD: i64 = 90 * 86_400;

/// Penalty rate of an expedited withdrawal at its start: 50%.
pub const MAX_EXPEDITED_WITHDRAWAL_PENALTY: u64 = 500_000;

/// Penalty rate of an expedited withdrawal at its end: 10%.
pub const MIN_EXPEDITED_WITHDRAWAL_PENALTY: u64 = 100_000;

/// The least that may be withdrawn early: 1 ARIO.
pub const MIN_EXPEDITED_WITHDRAWAL_AMOUNT: u64 = 1_000_000;

/// Default length of an epoch: one day.
pub const DEFAULT_EPOCH_DURATION: i64 = 86_400;

/// The largest share of rewards that goes to delegates: 95%, in basis points.
pub const MAX_DELEGATE_REWARD_SHARE: u16 = 9500;

/// Share of the epoch's rewards for gateways: 90%.
pub const GATEWAY_OPERATOR_REWARD_RATE: u64 = 900_000;

/// Share of the epoch's rewards for observers: 10%.
pub const OBSERVER_REWARD_RATE: u64 = 100_000;

/// Largest share of the treasury paid out per epoch: 0.1%.
pub const MAX_REWARD_RATE: u64 = 1_000;

/// Smallest share of the treasury paid out per epoch: 0.05%.
pub const MIN_REWARD_RATE: u64 = 500;

/// The epoch at which the reward rate starts to fall.
pub const REWARD_DECAY_START_EPOCH: u64 = 365;

/// The epoch at which the reward rate has fallen to its minimum.
pub const REWARD_DECAY_LAST_EPOCH: u64 = 547;

/// Deduction for a missed observation: 25%.
pub const MISSED_OBSERVATION_PENALTY: u64 = 250_000;

/// Unix time after which nothing may be imported any more.
pub const MIGRATION_DEADLINE: i64 = 4490553669;

/// Bit of `GatewaySettingsUpdatedEvent::fields_changed`.
pub const GATEWAY_SETTINGS_FIELD_LABEL: u32 = 1;

/// Bit of `GatewaySettingsUpdatedEvent::fields_changed`.
pub const GATEWAY_SETTINGS_FIELD_FQDN: u32 = 2;

/// Bit of `GatewaySettingsUpdatedEvent::fields_changed`.
pub const GATEWAY_SETTINGS_FIELD_PORT: u32 = 4;

/// Bit of `GatewaySettingsUpdatedEvent::fields_changed`.
pub const GATEWAY_SETTINGS_FIELD_PROTOCOL: u32 = 8;

/// Bit of `GatewaySettingsUpdatedEvent::fields_changed`.
pub const GATEWAY_SETTINGS_FIELD_PROPERTIES: u32 = 16;

/// Bit of `GatewaySettingsUpdatedEvent::fields_changed`.
pub const GATEWAY_SETTINGS_FIELD_NOTE: u32 = 32;

/// Reserved and never set: the setting was removed and its bit is not reused.
pub const GATEWAY_SETTINGS_FIELD_AUTO_STAKE: u32 = 64;

/// Bit of `GatewaySettingsUpdatedEvent::fields_changed`.
pub const GATEWAY_SETTINGS_FIELD_ALLOW_DELEGATED_STAKING: u32 = 128;

/// Bit of `GatewaySettingsUpdatedEvent::fields_changed`.
pub const GATEWAY_SETTINGS_FIELD_DELEGATE_REWARD_SHARE_RATIO: u32 = 256;

/// Bit of `GatewaySettingsUpdatedEvent::fields_changed`.
pub const GATEWAY_SETTINGS_FIELD_MIN_DELEGATE_STAKE: u32 = 512;

/// Bytes that a schema version takes at the end of an account.
pub const SCHEMA_VERSION_SIZE: usize = 3;

/// The current layout of `GatewaySettings`.
#[verifier::allow_in_spec]
pub fn gateway_settings_version() -> SchemaVersion
    returns
        (SchemaVersion { major: 1, minor: 0, patch: 0 }),
{
    SchemaVersion { major: 1, minor: 0, patch: 0 }
}

/// The current layout of `Gateway`.
#[verifier::allow_in_spec]
pub fn gateway_version() -> SchemaVersion
    returns
        (SchemaVersion { major: 1, minor: 1, patch: 0 }),
{
    SchemaVersion { major: 1, minor: 1, patch: 0 }
}

/// The current layout of `Delegation`.
#[verifier::allow_in_spec]
pub fn delegation_version() -> SchemaVersion
    returns
        (SchemaVersion { major: 1, minor: 0, patch: 0 }),
{
    SchemaVersion { major: 1, minor: 0, patch: 0 }
}

/// The current layout of `WithdrawalCounter`.
#[verifier::allow_in_spec]
pub fn withdrawal_counter_version() -> SchemaVersion
    returns
        (SchemaVersion { major: 1, minor: 0, patch: 0 }),
{
    SchemaVersion { major: 1, minor: 0, patch: 0 }
}

/// The current layout of `Withdrawal`.
#[verifier::allow_in_spec]
pub fn withdrawal_version() -> SchemaVersion
    returns
        (SchemaVersion { major: 1, minor: 0, patch: 0 }),
{
    SchemaVersion { major: 1, minor: 0, patch: 0 }
}

/// The current layout of `AllowlistEntry`.
#[verifier::allow_in_spec]
pub fn allowlist_entry_version() -> SchemaVersion
    returns
        (SchemaVersion { major: 1, minor: 0, patch: 0 }),
{
    SchemaVersion { major: 1, minor: 0, patch: 0 }
}

/// The current layout of `ObserverLookup`.
#[verifier::allow_in_spec]
pub fn observer_lookup_version() -> SchemaVersion
    returns
        (SchemaVersion { major: 1, minor: 0, patch: 0 }),
{
    SchemaVersion { major: 1, minor: 0, patch: 0 }
}

/// The current layout of `RedelegationRecord`.
#[verifier::allow_in_spec]
pub fn redelegation_record_version() -> SchemaVersion
    returns
        (SchemaVersion { major: 1, minor: 0, patch: 0 }),
{
    SchemaVersion { major: 1, minor: 0, patch: 0 }
}

/// The current layout of `EpochSettings`.
#[verifier::allow_in_spec]
pub fn epoch_settings_version() -> SchemaVersion
    returns
        (SchemaVersion { major: 1, minor: 0, patch: 0 }),
{
    SchemaVersion { major: 1, minor: 0, patch: 0 }
}

/// The current layout of `Observation`.
#[verifier::allow_in_spec]
pub fn observation_version() -> SchemaVersion
    returns
        (SchemaVersion { major: 1, minor: 0, patch: 0 }),
{
    SchemaVersion { major: 1, minor: 0, patch: 0 }
}

/// The current layout of `Epoch`.
#[verifier::allow_in_spec]
pub fn epoch_version() -> SchemaVersion
    returns
        (SchemaVersion { major: 1, minor: 0, patch: 0 }),
{
    SchemaVersion { major: 1, minor: 0, patch: 0 }
}

/// Every account type is at version 1.0.0 but the gateway, whose layout has grown once.
pub proof fn all_but_gateways_are_at_the_first_version(
    settings: SchemaVersion,
    gateway: SchemaVersion,
    delegation: SchemaVersion,
    counter: SchemaVersion,
    withdrawal: SchemaVersion,
    entry: SchemaVersion,
    lookup: SchemaVersion,
    record: SchemaVersion,
    epochs: SchemaVersion,
    observation: SchemaVersion,
    epoch: SchemaVersion,
)
    requires
        call_ensures(gateway_settings_version, (), settings),
        call_ensures(gateway_version, (), gateway),
        call_ensures(delegation_version, (), delegation),
        call_ensures(withdrawal_counter_version, (), counter),
        call_ensures(withdrawal_version, (), withdrawal),
        call_ensures(allowlist_entry_version, (), entry),
        call_ensures(observer_lookup_version, (), lookup),
        call_ensures(redelegation_record_version, (), record),
        call_ensures(epoch_settings_version, (), epochs),
        call_ensures(observation_version, (), observation),
        call_ensures(epoch_version, (), epoch),
    ensures
        settings.major == 1 && settings.minor == 0 && settings.patch == 0,
        gateway.major == 1 && gateway.minor == 1 && gateway.patch == 0,
        delegation == settings,
        counter == settings,
        withdrawal == settings,
        entry == settings,
        lookup == settings,
        record == settings,
        epochs == settings,
        observation == settings,
        epoch == settings,
{
}

} // verus!
