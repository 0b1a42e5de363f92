//! What the instructions report once they have succeeded. Field order is the
//! wire encoding.

use vstd::prelude::*;
use crate::pubkey::Pubkey;

verus! {

#[derive(Clone, Debug)]
pub struct GatewayJoinedEvent {
    pub operator: Pubkey,
    pub stake: u64,
    pub fqdn: String,
    pub timestamp: i64,
}

#[derive(Clone, Copy, Debug)]
pub struct GatewayLeavingEvent {
    pub operator: Pubkey,
    pub timestamp: i64,
}

#[derive(Clone, Copy, Debug)]
pub struct DelegationEvent {
    pub delegator: Pubkey,
    pub gateway: Pubkey,
    pub amount: u64,
    pub total: u64,
    pub timestamp: i64,
}

#[derive(Clone, Copy, Debug)]
pub struct WithdrawalCreatedEvent {
    pub owner: Pubkey,
    pub withdrawal_id: u64,
    pub amount: u64,
    pub available_at: i64,
    pub timestamp: i64,
}

#[derive(Clone, Copy, Debug)]
pub struct WithdrawalClaimedEvent {
    pub owner: Pubkey,
    pub withdrawal_id: u64,
    pub amount: u64,
    pub timestamp: i64,
}

#[derive(Clone, Copy, Debug)]
pub struct InstantWithdrawalEvent {
    pub owner: Pubkey,
    pub withdrawal_id: u64,
    pub amount: u64,
    pub fee: u64,
    pub payout: u64,
    pub timestamp: i64,
}

#[derive(Clone, Copy, Debug)]
pub struct WithdrawalCancelledEvent {
    pub owner: Pubkey,
    pub gateway: Pubkey,
    pub withdrawal_id: u64,
    pub amount: u64,
    pub is_delegate: bool,
    pub timestamp: i64,
}

#[derive(Clone, Copy, Debug)]
pub struct StakePaymentEvent {
    pub payer: Pubkey,
    pub gateway: Pubkey,
    pub amount: u64,
    pub is_delegate: bool,
    pub timestamp: i64,
}

#[derive(Clone, Copy, Debug)]
pub struct WithdrawalPaymentEvent {
    pub owner: Pubkey,
    pub withdrawal_id: u64,
    pub amount: u64,
    pub residue: u64,
    pub timestamp: i64,
}

/// Summary marker for a multi-source funding plan. Per-gateway and per-source
/// detail is exposed via the per-source `StakePaymentEvent` (Delegation +
/// OperatorStake), `WithdrawalPaymentEvent` (Withdrawal), and
/// `ResidueVaultCreatedEvent` (sub-min Delegation residue) emitted alongside.
#[derive(Clone, Copy, Debug)]
pub struct FundingPlanAppliedEvent {
    pub payer: Pubkey,
    pub total_funded: u64,
    pub source_count: u8,
    pub created_residue_vault: bool,
    pub timestamp: i64,
}

#[derive(Clone, Copy, Debug)]
pub struct ResidueVaultCreatedEvent {
    pub owner: Pubkey,
    pub withdrawal_id: u64,
    pub gateway: Pubkey,
    pub amount: u64,
    pub available_at: i64,
    pub timestamp: i64,
}

#[derive(Clone, Copy, Debug)]
pub struct EpochCreatedEvent {
    pub epoch_index: u64,
    pub start_timestamp: i64,
    pub end_timestamp: i64,
    pub timestamp: i64,
}

#[derive(Clone, Copy, Debug)]
pub struct EpochPrescribedEvent {
    pub epoch_index: u64,
    pub observer_count: u8,
    pub per_gateway_reward: u64,
    pub per_observer_reward: u64,
    pub timestamp: i64,
}

#[derive(Clone, Copy, Debug)]
pub struct ObservationSubmittedEvent {
    pub epoch_index: u64,
    pub observer: Pubkey,
    pub gateway_count: u16,
    pub report_tx_id: [u8; 32],
    pub timestamp: i64,
}

#[derive(Clone, Copy, Debug)]
pub struct EpochDistributedEvent {
    pub epoch_index: u64,
    pub gateways_processed: u32,
    pub total_eligible_rewards: u64,
    pub timestamp: i64,
}

/// Emitted by `update_gateway_settings` when one or more settings fields
/// were mutated. `fields_changed` is a u32 bitmask of `GATEWAY_SETTINGS_FIELD_*`
/// constants - kept compact (vs a Vec<String> of names) so events fit
/// comfortably under the log budget of a transaction.
#[derive(Clone, Copy, Debug)]
pub struct GatewaySettingsUpdatedEvent {
    pub operator: Pubkey,
    pub fields_changed: u32,
    pub timestamp: i64,
}

/// Emitted by `update_observer_address` when the gateway's observer address
/// changes. Indexers can use this to refresh observer-keyed lookups.
#[derive(Clone, Copy, Debug)]
pub struct ObserverAddressUpdatedEvent {
    pub operator: Pubkey,
    pub new_observer: Pubkey,
    pub timestamp: i64,
}

/// Emitted by `increase_operator_stake`. Symmetric with
/// `WithdrawalCreatedEvent` (decrease side).
#[derive(Clone, Copy, Debug)]
pub struct OperatorStakeIncreasedEvent {
    pub operator: Pubkey,
    pub added: u64,
    pub new_total: u64,
    pub timestamp: i64,
}

/// Emitted by `decrease_delegate_stake`. Parallel to the existing
/// `DelegationEvent` (which fires on increase + claim flows). Indexers
/// can pair this with `WithdrawalCreatedEvent` for the post-state of
/// the locked tokens.
#[derive(Clone, Copy, Debug)]
pub struct DelegationDecreasedEvent {
    pub delegator: Pubkey,
    pub gateway: Pubkey,
    pub decrease: u64,
    pub new_total: u64,
    pub timestamp: i64,
}

/// Emitted by `close_empty_delegation` when the delegation PDA is
/// closed and rent reclaimed.
#[derive(Clone, Copy, Debug)]
pub struct DelegationClosedEvent {
    pub delegator: Pubkey,
    pub gateway: Pubkey,
    pub timestamp: i64,
}

/// Emitted by `redelegate_stake`. `amount` is the gross amount moved;
/// `fee` is the protocol cut (0% on first redelegation, then 10/20/.../60%
/// per redelegation_count, with a 7-day reset).
#[derive(Clone, Copy, Debug)]
pub struct RedelegationEvent {
    pub delegator: Pubkey,
    pub from_gateway: Pubkey,
    pub to_gateway: Pubkey,
    pub amount: u64,
    pub fee: u64,
    pub timestamp: i64,
}

/// Emitted by both `allow_delegate` (`allowed: true`) and
/// `disallow_delegate` (`allowed: false`) - a single event shape covers
/// both directions to keep the indexer schema flat.
#[derive(Clone, Copy, Debug)]
pub struct DelegateAllowlistedEvent {
    pub operator: Pubkey,
    pub delegate: Pubkey,
    pub allowed: bool,
    pub timestamp: i64,
}

/// Emitted by `set_allowlist_enabled` whenever the per-gateway allowlist
/// toggle flips.
#[derive(Clone, Copy, Debug)]
pub struct AllowlistToggledEvent {
    pub operator: Pubkey,
    pub enabled: bool,
    pub timestamp: i64,
}

/// Emitted by `set_epochs_enabled`. Note: enabling is instant (also
/// cancels any pending disable). Disabling is timelocked - this event
/// fires on the *intent* to toggle; the actual disable effect is
/// gated on `disable_at` inside `create_epoch`.
#[derive(Clone, Copy, Debug)]
pub struct EpochsToggledEvent {
    pub admin: Pubkey,
    pub enabled: bool,
    pub timestamp: i64,
}

/// Emitted exactly once per epoch by `tally_weights`, on the final batch
/// (the call that transitions `weights_tallied` from 0 to 1). Mid-batch
/// calls are silent. Mirrors the `EpochDistributedEvent` summary pattern.
#[derive(Clone, Copy, Debug)]
pub struct EpochWeightsTalliedEvent {
    pub epoch_index: u64,
    pub gateway_count: u32,
    pub total_weight: u64,
    pub timestamp: i64,
}

/// Emitted by `close_epoch` when the epoch PDA is closed. `rent_recovered`
/// is the lamport delta refunded to the caller (captured pre/post account
/// close). Marker for retention-window pruning in indexers.
#[derive(Clone, Copy, Debug)]
pub struct EpochClosedEvent {
    pub epoch_index: u64,
    pub rent_recovered: u64,
    pub timestamp: i64,
}

/// Emitted by `compound_delegation_rewards`. `compounded` is the pending
/// reward newly added to the delegation amount.
#[derive(Clone, Copy, Debug)]
pub struct RewardsCompoundedEvent {
    pub delegator: Pubkey,
    pub gateway: Pubkey,
    pub compounded: u64,
    pub timestamp: i64,
}

/// Emitted by `prune_gateway` (permissionless slash for failed gateways).
/// `slashed_amount` is the protocol-confiscated portion (0 if the gateway
/// had less than `min_operator_stake`).
#[derive(Clone, Copy, Debug)]
pub struct GatewayPrunedEvent {
    pub operator: Pubkey,
    pub pruner: Pubkey,
    pub slashed_amount: u64,
    pub timestamp: i64,
}

/// Emitted by `finalize_gone` when a Leaving gateway's PDA + registry
/// slot are reclaimed. Pairs with `GatewayPrunedEvent` / `GatewayLeavingEvent`
/// to signal "gateway gone, drop from caches."
#[derive(Clone, Copy, Debug)]
pub struct GatewayFinalizedEvent {
    pub operator: Pubkey,
    pub pruner: Pubkey,
    pub timestamp: i64,
}

/// Emitted by `finalize_migration` when the GAR migration window is
/// permanently closed. `gateway_count` is the registry count at finalize
/// time; `slot` is the runtime slot for downstream timestamping.
#[derive(Clone, Copy, Debug)]
pub struct GarMigrationFinalizedEvent {
    pub admin: Pubkey,
    pub gateway_count: u32,
    pub slot: u64,
    pub timestamp: i64,
}

/// Emitted when the authority changes the length of an epoch.
#[derive(Clone, Copy, Debug)]
pub struct EpochDurationUpdatedEvent {
    pub admin: Pubkey,
    pub old_duration: i64,
    pub new_duration: i64,
    pub old_genesis_timestamp: i64,
    pub new_genesis_timestamp: i64,
    pub current_epoch_index: u64,
    pub timestamp: i64,
}

/// Emitted when the authority advances the epoch counter before the first epoch.
#[derive(Clone, Copy, Debug)]
pub struct EpochCounterAdvancedEvent {
    pub admin: Pubkey,
    pub new_index: u64,
    pub old_genesis_timestamp: i64,
    pub new_genesis_timestamp: i64,
    pub epoch_duration: i64,
    pub timestamp: i64,
}

/// Emitted when the authority changes the withdrawal lock period.
#[derive(Clone, Copy, Debug)]
pub struct WithdrawalPeriodUpdatedEvent {
    pub admin: Pubkey,
    pub old_period_seconds: i64,
    pub new_period_seconds: i64,
    pub timestamp: i64,
}

} // verus!
