//! The settings of the epochs, and the opening and closing of one.

use vstd::prelude::*;
use crate::addresses::{le_bytes_u64, lemma_le_bytes_inverse, u64_to_le_bytes};
use crate::arith::{
    cap_u64, fits_i64, is_part, le_value, lemma_quotient_is_part, lemma_share_bounded, low64, mul_wide, signed64,
    to_signed, truncate_u128,
};
use crate::error::GarError;
use crate::events::{
    EpochClosedEvent, EpochCounterAdvancedEvent, EpochCreatedEvent, EpochDurationUpdatedEvent, EpochsToggledEvent,
};
use crate::instructions::distribution::{distribution_refusal, DistributeEpoch};
use crate::instructions::observation::{observation_refusal, SaveObservations};
use crate::instructions::places::{
    count_on_time, every_slot_on_time_has_a_place, lemma_count_is_filter, on_time_count, place_in, place_of, places_are_distinct,
    places_are_on_time,
};
use crate::instructions::prescribe::{is_prescribed, prescribe_refusal, PrescribeEpoch, Prescription};
use crate::pubkey::{sha256, sha256_hash, Pubkey};
use crate::state::accounts::{EpochSettings, GatewayRegistry, GatewaySettings, GatewaySlot};
use crate::state::constants::{epoch_version, RATE_SCALE};
use crate::state::epoch::Epoch;
use crate::state::rewards::{compute_reward_rate, lemma_rate_decays_evenly, reward_rate};

verus! {

/// The accounts of the instructions that change the epoch settings.
#[derive(Clone, Copy, Debug)]
pub struct UpdateEpochSettings {
    pub epoch_settings: EpochSettings,
    pub authority: Pubkey,
}

/// Why epochs cannot be switched on or off, if so.
pub open spec fn toggle_refusal(ctx: UpdateEpochSettings, enabled: bool, now: i64) -> Option<GarError> {
    if ctx.epoch_settings.authority != ctx.authority {
        Some(GarError::Unauthorized)
    } else if !enabled && now + EpochSettings::EPOCH_DISABLE_DELAY > i64::MAX {
        Some(GarError::ArithmeticOverflow)
    } else {
        None
    }
}

/// Switches epochs on at once, or off after seven days. Switching them on takes
/// back a pending switch-off.
pub fn set_epochs_enabled(ctx: UpdateEpochSettings, enabled: bool, now: i64) -> (r: Result<
    (UpdateEpochSettings, EpochsToggledEvent),
    GarError,
>)
    ensures
        match r {
            Err(e) => toggle_refusal(ctx, enabled, now) == Some(e),
            Ok((after, event)) => {
                &&& toggle_refusal(ctx, enabled, now) is None
                &&& after == (UpdateEpochSettings {
                    epoch_settings: EpochSettings {
                        enabled: enabled || ctx.epoch_settings.enabled,
                        disable_at: if enabled {
                            0
                        } else {
                            (now + EpochSettings::EPOCH_DISABLE_DELAY) as i64
                        },
                        ..ctx.epoch_settings
                    },
                    ..ctx
                })
                &&& event == (EpochsToggledEvent { admin: ctx.authority, enabled, timestamp: now })
            },
        },
{
    let mut ctx = ctx;
    if ctx.epoch_settings.authority != ctx.authority {
        return Err(GarError::Unauthorized);
    }
    if enabled {
        ctx.epoch_settings.enabled = true;
        ctx.epoch_settings.disable_at = 0;
    } else {
        ctx.epoch_settings.disable_at = match now.checked_add(EpochSettings::EPOCH_DISABLE_DELAY) {
            None => {
                return Err(GarError::ArithmeticOverflow);
            },
            Some(t) => t,
        };
    }
    Ok((ctx, EpochsToggledEvent { admin: ctx.authority, enabled, timestamp: now }))
}

/// The genesis from which epoch `index` starts now.
pub open spec fn anchored_genesis(index: u64, duration: i64, now: i64) -> int {
    now - signed64(index) * duration
}

/// The genesis cannot be reckoned: a number on the way is out of range.
pub open spec fn genesis_overflows(index: u64, duration: i64, now: i64) -> bool {
    !fits_i64(signed64(index) * duration) || !fits_i64(anchored_genesis(index, duration, now))
}

fn anchor_genesis(index: u64, duration: i64, now: i64) -> (r: Result<i64, GarError>)
    ensures
        match r {
            Err(e) => genesis_overflows(index, duration, now) && e == GarError::ArithmeticOverflow,
            Ok(t) => !genesis_overflows(index, duration, now) && t == anchored_genesis(index, duration, now),
        },
{
    match to_signed(index).checked_mul(duration) {
        None => Err(GarError::ArithmeticOverflow),
        Some(offset) => match now.checked_sub(offset) {
            None => Err(GarError::ArithmeticOverflow),
            Some(t) => Ok(t),
        },
    }
}

/// Why the length of an epoch cannot be changed, if so.
pub open spec fn duration_refusal(ctx: UpdateEpochSettings, new_duration: i64, now: i64) -> Option<GarError> {
    if ctx.epoch_settings.authority != ctx.authority {
        Some(GarError::Unauthorized)
    } else if new_duration < 60 {
        Some(GarError::InvalidParameter)
    } else if genesis_overflows(ctx.epoch_settings.current_epoch_index, new_duration, now) {
        Some(GarError::ArithmeticOverflow)
    } else {
        None
    }
}

/// Changes the length of an epoch, and moves the genesis so that the next epoch to
/// be created starts now.
pub fn admin_set_epoch_duration(ctx: UpdateEpochSettings, new_duration: i64, now: i64) -> (r: Result<
    (UpdateEpochSettings, EpochDurationUpdatedEvent),
    GarError,
>)
    ensures
        match r {
            Err(e) => duration_refusal(ctx, new_duration, now) == Some(e),
            Ok((after, event)) => {
                let s = ctx.epoch_settings;
                let genesis = anchored_genesis(s.current_epoch_index, new_duration, now) as i64;
                &&& duration_refusal(ctx, new_duration, now) is None
                &&& after == (UpdateEpochSettings {
                    epoch_settings: EpochSettings {
                        epoch_duration: new_duration,
                        genesis_timestamp: genesis,
                        ..s
                    },
                    ..ctx
                })
                &&& event == (EpochDurationUpdatedEvent {
                    admin: ctx.authority,
                    old_duration: s.epoch_duration,
                    new_duration,
                    old_genesis_timestamp: s.genesis_timestamp,
                    new_genesis_timestamp: genesis,
                    current_epoch_index: s.current_epoch_index,
                    timestamp: now,
                })
            },
        },
{
    let mut ctx = ctx;
    if ctx.epoch_settings.authority != ctx.authority {
        return Err(GarError::Unauthorized);
    }
    if new_duration < 60 {
        return Err(GarError::InvalidParameter);
    }
    let old_duration: i64 = ctx.epoch_settings.epoch_duration;
    let old_genesis: i64 = ctx.epoch_settings.genesis_timestamp;
    let new_genesis: i64 = match anchor_genesis(ctx.epoch_settings.current_epoch_index, new_duration, now) {
        Err(e) => {
            return Err(e);
        },
        Ok(t) => t,
    };
    ctx.epoch_settings.epoch_duration = new_duration;
    ctx.epoch_settings.genesis_timestamp = new_genesis;
    let event = EpochDurationUpdatedEvent {
        admin: ctx.authority,
        old_duration,
        new_duration,
        old_genesis_timestamp: old_genesis,
        new_genesis_timestamp: new_genesis,
        current_epoch_index: ctx.epoch_settings.current_epoch_index,
        timestamp: now,
    };
    Ok((ctx, event))
}

/// Why the epoch counter cannot be advanced, if so.
pub open spec fn index_refusal(ctx: UpdateEpochSettings, new_index: u64, now: i64) -> Option<GarError> {
    if ctx.epoch_settings.authority != ctx.authority {
        Some(GarError::Unauthorized)
    } else if new_index == 0 || new_index > 100_000 {
        Some(GarError::InvalidParameter)
    } else if ctx.epoch_settings.enabled {
        Some(GarError::EpochsAlreadyEnabled)
    } else if ctx.epoch_settings.current_epoch_index != 0 {
        Some(GarError::EpochCounterAlreadyAdvanced)
    } else if genesis_overflows(new_index, ctx.epoch_settings.epoch_duration, now) {
        Some(GarError::ArithmeticOverflow)
    } else {
        None
    }
}

/// Advances the epoch counter once, before the first epoch, so that epochs count
/// on from a number already reached elsewhere; the next epoch starts now.
pub fn admin_set_current_epoch_index(ctx: UpdateEpochSettings, new_index: u64, now: i64) -> (r: Result<
    (UpdateEpochSettings, EpochCounterAdvancedEvent),
    GarError,
>)
    ensures
        match r {
            Err(e) => index_refusal(ctx, new_index, now) == Some(e),
            Ok((after, event)) => {
                let s = ctx.epoch_settings;
                let genesis = anchored_genesis(new_index, s.epoch_duration, now) as i64;
                &&& index_refusal(ctx, new_index, now) is None
                &&& after == (UpdateEpochSettings {
                    epoch_settings: EpochSettings {
                        current_epoch_index: new_index,
                        genesis_timestamp: genesis,
                        ..s
                    },
                    ..ctx
                })
                &&& event == (EpochCounterAdvancedEvent {
                    admin: ctx.authority,
                    new_index,
                    old_genesis_timestamp: s.genesis_timestamp,
                    new_genesis_timestamp: genesis,
                    epoch_duration: s.epoch_duration,
                    timestamp: now,
                })
            },
        },
{
    let mut ctx = ctx;
    if ctx.epoch_settings.authority != ctx.authority {
        return Err(GarError::Unauthorized);
    }
    if new_index == 0 {
        return Err(GarError::InvalidParameter);
    }
    if new_index > 100_000 {
        return Err(GarError::InvalidParameter);
    }
    if ctx.epoch_settings.enabled {
        return Err(GarError::EpochsAlreadyEnabled);
    }
    if ctx.epoch_settings.current_epoch_index != 0 {
        return Err(GarError::EpochCounterAlreadyAdvanced);
    }
    let old_genesis: i64 = ctx.epoch_settings.genesis_timestamp;
    let new_genesis: i64 = match anchor_genesis(new_index, ctx.epoch_settings.epoch_duration, now) {
        Err(e) => {
            return Err(e);
        },
        Ok(t) => t,
    };
    ctx.epoch_settings.current_epoch_index = new_index;
    ctx.epoch_settings.genesis_timestamp = new_genesis;
    let event = EpochCounterAdvancedEvent {
        admin: ctx.authority,
        new_index,
        old_genesis_timestamp: old_genesis,
        new_genesis_timestamp: new_genesis,
        epoch_duration: ctx.epoch_settings.epoch_duration,
        timestamp: now,
    };
    Ok((ctx, event))
}

/// Once the genesis is anchored, the next epoch starts exactly now.
pub proof fn anchored_epoch_starts_now(settings: EpochSettings, now: i64)
    requires
        settings.genesis_timestamp == anchored_genesis(
            settings.current_epoch_index,
            settings.epoch_duration,
            now,
        ),
    ensures
        start_of(settings) == now,
{
}

/// The accounts of `close_epoch_settings`. The settings' account is closed.
#[derive(Clone, Copy, Debug)]
pub struct CloseEpochSettings {
    pub epoch_settings: EpochSettings,
    pub authority: Pubkey,
}

/// Closes the epoch settings, so that they can be opened anew with other values.
pub fn close_epoch_settings(ctx: CloseEpochSettings) -> (r: Result<CloseEpochSettings, GarError>)
    ensures
        match r {
            Err(e) => ctx.epoch_settings.authority != ctx.authority && e == GarError::Unauthorized,
            Ok(after) => ctx.epoch_settings.authority == ctx.authority && after == ctx,
        },
{
    if ctx.epoch_settings.authority != ctx.authority {
        return Err(GarError::Unauthorized);
    }
    Ok(ctx)
}

/// The accounts of `admin_close_stale_epoch`. The epoch's account is closed.
#[derive(Clone, Copy, Debug)]
pub struct AdminCloseStaleEpoch {
    pub settings: GatewaySettings,
    pub epoch_settings: EpochSettings,
    pub authority: Pubkey,
}

/// Closes an epoch that was left behind, whatever its state. The authority may do
/// so while accounts are still being imported.
pub fn admin_close_stale_epoch(ctx: AdminCloseStaleEpoch) -> (r: Result<AdminCloseStaleEpoch, GarError>)
    ensures
        match r {
            Err(e) => {
                ||| !ctx.settings.migration_active && e == GarError::MigrationInactive
                ||| ctx.settings.migration_active && ctx.epoch_settings.authority != ctx.authority && e
                    == GarError::Unauthorized
            },
            Ok(after) => ctx.settings.migration_active && ctx.epoch_settings.authority == ctx.authority && after
                == ctx,
        },
{
    if !ctx.settings.migration_active {
        return Err(GarError::MigrationInactive);
    }
    if ctx.epoch_settings.authority != ctx.authority {
        return Err(GarError::Unauthorized);
    }
    Ok(ctx)
}

/// The accounts of `create_epoch`.
#[derive(Clone, Debug)]
pub struct CreateEpoch {
    pub epoch_settings: EpochSettings,
    pub registry: GatewayRegistry,
    pub settings: GatewaySettings,
    pub protocol_token_account: Pubkey,
    /// What the treasury holds.
    pub protocol_balance: u64,
    /// The bump seed of the epoch to be opened.
    pub epoch_bump: u8,
}

/// The time as the runtime tells it.
#[derive(Clone, Copy, Debug)]
pub struct Clock {
    pub slot: u64,
    pub unix_timestamp: i64,
}

/// When the next epoch starts.
pub open spec fn start_of(settings: EpochSettings) -> int {
    settings.genesis_timestamp + signed64(settings.current_epoch_index) * settings.epoch_duration
}

/// Why no epoch can be created, if so.
pub open spec fn create_refusal(ctx: CreateEpoch, now: i64) -> Option<GarError> {
    let s = ctx.epoch_settings;
    let offset = signed64(s.current_epoch_index) * s.epoch_duration;
    if ctx.protocol_token_account != ctx.settings.protocol_token_account {
        Some(GarError::InvalidParameter)
    } else if !s.enabled || (s.disable_at > 0 && now >= s.disable_at) {
        Some(GarError::EpochsNotEnabled)
    } else if !fits_i64(offset) || !fits_i64(start_of(s)) {
        Some(GarError::ArithmeticOverflow)
    } else if now < start_of(s) {
        Some(GarError::EpochNotStarted)
    } else if !fits_i64(start_of(s) + s.epoch_duration) || s.current_epoch_index == u64::MAX {
        Some(GarError::ArithmeticOverflow)
    } else {
        None
    }
}

/// The reward rate of the next epoch.
pub open spec fn next_reward_rate(s: EpochSettings) -> int {
    reward_rate(
        s.current_epoch_index,
        s.max_reward_rate,
        s.min_reward_rate,
        s.reward_decay_start_epoch,
        s.reward_decay_last_epoch,
    )
}

/// An epoch that has just been created: nothing tallied, prescribed, observed or
/// distributed yet.
pub open spec fn newly_created(ctx: CreateEpoch, hashchain: Seq<u8>, epoch: Epoch) -> bool {
    let s = ctx.epoch_settings;
    &&& epoch.epoch_index == s.current_epoch_index
    &&& epoch.start_timestamp == start_of(s)
    &&& epoch.end_timestamp == start_of(s) + s.epoch_duration
    &&& epoch.total_eligible_rewards == low64(
        ctx.protocol_balance * next_reward_rate(s) / RATE_SCALE as int,
    )
    &&& epoch.per_gateway_reward == 0
    &&& epoch.per_observer_reward == 0
    &&& epoch.reward_rate == next_reward_rate(s)
    &&& epoch.composite_total() == 0
    &&& epoch.hashchain@ == hashchain
    &&& epoch.active_gateway_count == on_time_count(
        ctx.registry.gateways@,
        ctx.registry.count as int,
        start_of(s),
    )
    &&& epoch.distribution_index == 0
    &&& epoch.tally_index == 0
    &&& epoch.observer_count == 0
    &&& epoch.name_count == 0
    &&& epoch.observations_submitted == 0
    &&& epoch.rewards_distributed == 0
    &&& epoch.weights_tallied == 0
    &&& epoch.prescriptions_done == 0
    &&& epoch.bump == ctx.epoch_bump
    &&& epoch.observations_closed == 0
    &&& forall|i: int| 0 <= i < 3000 ==> epoch.failure_counts@[i] == 0
    &&& forall|i: int| 0 <= i < 50 ==> epoch.prescribed_observers@[i] == Pubkey::zero()
    &&& forall|i: int| 0 <= i < 50 ==> epoch.prescribed_observer_gateways@[i] == Pubkey::zero()
    &&& forall|i: int, j: int|
        0 <= i < 2 && 0 <= j < 32 ==> #[trigger] epoch.prescribed_names@[i]@[j] == 0
    &&& forall|i: int| 0 <= i < 7 ==> epoch.has_observed@[i] == 0
    &&& epoch.version_bytes@ == seq![epoch_version().major, epoch_version().minor, epoch_version().patch]
    &&& epoch._padding2@ == seq![0u8, 0u8]
}

/// What creating an epoch comes to: its record, and the settings with the counter
/// one further.
pub open spec fn epoch_created(
    ctx: CreateEpoch,
    hashchain: Seq<u8>,
    now: i64,
    after: EpochSettings,
    epoch: Epoch,
    event: EpochCreatedEvent,
) -> bool {
    &&& newly_created(ctx, hashchain, epoch)
    &&& after == (EpochSettings {
        current_epoch_index: (ctx.epoch_settings.current_epoch_index + 1) as u64,
        ..ctx.epoch_settings
    })
    &&& event == (EpochCreatedEvent {
        epoch_index: epoch.epoch_index,
        start_timestamp: epoch.start_timestamp,
        end_timestamp: epoch.end_timestamp,
        timestamp: now,
    })
}

/// Creates the next epoch, with the source of its randomness given. The epoch counts
/// the gateways that joined by its start.
pub fn create_epoch_with(ctx: CreateEpoch, now: i64, hashchain: [u8; 32]) -> (r: Result<
    (EpochSettings, Epoch, EpochCreatedEvent),
    GarError,
>)
    requires
        ctx.registry.wf(),
    ensures
        match r {
            Err(e) => create_refusal(ctx, now) == Some(e),
            Ok((after, epoch, event)) => {
                &&& create_refusal(ctx, now) is None
                &&& epoch_created(ctx, hashchain@, now, after, epoch, event)
            },
        },
{
    if ctx.protocol_token_account != ctx.settings.protocol_token_account {
        return Err(GarError::InvalidParameter);
    }
    let mut settings = ctx.epoch_settings;
    if !settings.enabled {
        return Err(GarError::EpochsNotEnabled);
    }
    if settings.disable_at > 0 && now >= settings.disable_at {
        return Err(GarError::EpochsNotEnabled);
    }
    let index: u64 = settings.current_epoch_index;
    let offset: i64 = match to_signed(index).checked_mul(settings.epoch_duration) {
        None => {
            return Err(GarError::ArithmeticOverflow);
        },
        Some(offset) => offset,
    };
    let epoch_start: i64 = match settings.genesis_timestamp.checked_add(offset) {
        None => {
            return Err(GarError::ArithmeticOverflow);
        },
        Some(t) => t,
    };
    if now < epoch_start {
        return Err(GarError::EpochNotStarted);
    }
    let rate: u64 = compute_reward_rate(
        index,
        settings.max_reward_rate,
        settings.min_reward_rate,
        settings.reward_decay_start_epoch,
        settings.reward_decay_last_epoch,
    );
    let total_eligible: u64 = truncate_u128(mul_wide(ctx.protocol_balance, rate) / RATE_SCALE as u128);
    let end_timestamp: i64 = match epoch_start.checked_add(settings.epoch_duration) {
        None => {
            return Err(GarError::ArithmeticOverflow);
        },
        Some(t) => t,
    };
    let version = epoch_version();
    let epoch = Epoch {
        epoch_index: index,
        start_timestamp: epoch_start,
        end_timestamp,
        total_eligible_rewards: total_eligible,
        per_gateway_reward: 0,
        per_observer_reward: 0,
        reward_rate: rate,
        total_composite_weight_lo: 0,
        total_composite_weight_hi: 0,
        hashchain,
        active_gateway_count: count_on_time(&ctx.registry, epoch_start),
        distribution_index: 0,
        tally_index: 0,
        observer_count: 0,
        name_count: 0,
        observations_submitted: 0,
        rewards_distributed: 0,
        weights_tallied: 0,
        prescriptions_done: 0,
        bump: ctx.epoch_bump,
        observations_closed: 0,
        failure_counts: [0u16; 3000],
        prescribed_observers: [Pubkey::default(); 50],
        prescribed_observer_gateways: [Pubkey::default(); 50],
        prescribed_names: [[0u8; 32]; 2],
        has_observed: [0u8; 7],
        version_bytes: [version.major, version.minor, version.patch],
        _padding2: [0u8; 2],
    };
    settings.current_epoch_index = match settings.current_epoch_index.checked_add(1) {
        None => {
            return Err(GarError::ArithmeticOverflow);
        },
        Some(next) => next,
    };
    let event = EpochCreatedEvent {
        epoch_index: epoch.epoch_index,
        start_timestamp: epoch.start_timestamp,
        end_timestamp: epoch.end_timestamp,
        timestamp: now,
    };
    assert(epoch._padding2@ =~= seq![0u8, 0u8]);
    assert(epoch.version_bytes@ =~= seq![version.major, version.minor, version.patch]);
    Ok((settings, epoch, event))
}

/// What an epoch draws its randomness from: the slot, the number of the epoch and
/// the time, none of which the caller can choose freely.
pub open spec fn entropy(clock: Clock, epoch_index: u64) -> Seq<u8> {
    le_bytes_u64(clock.slot) + le_bytes_u64(epoch_index) + le_bytes_u64(clock.unix_timestamp as u64)
}

/// Creates the next epoch. Anyone may do so once the epoch's time has come.
pub fn create_epoch(ctx: CreateEpoch, clock: Clock) -> (r: Result<(EpochSettings, Epoch, EpochCreatedEvent), GarError>)
    requires
        ctx.registry.wf(),
    ensures
        match r {
            Err(e) => create_refusal(ctx, clock.unix_timestamp) == Some(e),
            Ok((after, epoch, event)) => {
                &&& create_refusal(ctx, clock.unix_timestamp) is None
                &&& epoch_created(
                    ctx,
                    sha256(entropy(clock, ctx.epoch_settings.current_epoch_index)),
                    clock.unix_timestamp,
                    after,
                    epoch,
                    event,
                )
            },
        },
{
    let mut input: Vec<u8> = u64_to_le_bytes(clock.slot);
    let mut epoch_bytes: Vec<u8> = u64_to_le_bytes(ctx.epoch_settings.current_epoch_index);
    let mut ts_bytes: Vec<u8> = u64_to_le_bytes(clock.unix_timestamp as u64);
    input.append(&mut epoch_bytes);
    input.append(&mut ts_bytes);
    let hashchain: [u8; 32] = sha256_hash(&input);
    create_epoch_with(ctx, clock.unix_timestamp, hashchain)
}

/// The accounts of `close_epoch`. The epoch's account is closed.
#[derive(Clone, Copy, Debug)]
pub struct CloseEpoch {
    pub epoch_settings: EpochSettings,
    pub epoch: Epoch,
    /// What the epoch's account holds in rent.
    pub epoch_lamports: u64,
}

/// Why an epoch cannot be closed, if so.
pub open spec fn close_refusal(ctx: CloseEpoch) -> Option<GarError> {
    if ctx.epoch.rewards_distributed == 0 {
        Some(GarError::EpochNotCloseable)
    } else if ctx.epoch_settings.current_epoch_index < cap_u64(ctx.epoch.epoch_index + 7) {
        Some(GarError::EpochNotCloseable)
    } else if ctx.epoch.observations_closed != ctx.epoch.observations_submitted {
        Some(GarError::EpochObservationsNotClosed)
    } else {
        None
    }
}

/// Closes an epoch that has been distributed, once seven more have been created
/// and all its observations are closed. Anyone may do so.
pub fn close_epoch(ctx: CloseEpoch, now: i64) -> (r: Result<EpochClosedEvent, GarError>)
    ensures
        match r {
            Err(e) => close_refusal(ctx) == Some(e),
            Ok(event) => {
                &&& close_refusal(ctx) is None
                &&& event == (EpochClosedEvent {
                    epoch_index: ctx.epoch.epoch_index,
                    rent_recovered: ctx.epoch_lamports,
                    timestamp: now,
                })
            },
        },
{
    if ctx.epoch.rewards_distributed == 0 {
        return Err(GarError::EpochNotCloseable);
    }
    let current: u64 = ctx.epoch_settings.current_epoch_index;
    if current < ctx.epoch.epoch_index.saturating_add(7) {
        return Err(GarError::EpochNotCloseable);
    }
    if ctx.epoch.observations_closed != ctx.epoch.observations_submitted {
        return Err(GarError::EpochObservationsNotClosed);
    }
    Ok(
        EpochClosedEvent {
            epoch_index: ctx.epoch.epoch_index,
            rent_recovered: ctx.epoch_lamports,
            timestamp: now,
        },
    )
}

/// An epoch promises no more rewards than its share of what the treasury holds, as
/// long as the rates are at most the whole.
pub proof fn rewards_within_treasury(ctx: CreateEpoch, hashchain: Seq<u8>, epoch: Epoch)
    requires
        newly_created(ctx, hashchain, epoch),
        ctx.epoch_settings.min_reward_rate <= ctx.epoch_settings.max_reward_rate <= RATE_SCALE,
    ensures
        epoch.total_eligible_rewards <= ctx.protocol_balance,
        epoch.total_eligible_rewards * RATE_SCALE <= ctx.protocol_balance * ctx.epoch_settings.max_reward_rate,
{
    let s = ctx.epoch_settings;
    let rate: int = next_reward_rate(s);
    let b: int = ctx.protocol_balance as int;
    crate::state::rewards::reward_rate_bounded(
        s.current_epoch_index,
        s.max_reward_rate,
        s.min_reward_rate,
        s.reward_decay_start_epoch,
        s.reward_decay_last_epoch,
    );
    crate::arith::lemma_share_bounded(rate, b, RATE_SCALE as int);
    let m: int = s.max_reward_rate as int;
    assert(b * rate <= b * m) by (nonlinear_arith)
        requires
            0 <= b,
            rate <= m,
    ;
}

/// A new epoch has a place for exactly the gateways that joined by its start: each of
/// its places is a slot of such a gateway, every slot of such a gateway is one of
/// its places, and no slot is two of them.
pub proof fn new_epoch_places_the_gateways_on_time(ctx: CreateEpoch, hashchain: Seq<u8>, epoch: Epoch)
    requires
        ctx.registry.wf(),
        newly_created(ctx, hashchain, epoch),
    ensures
        epoch.active_gateway_count <= ctx.registry.count,
        forall|k: int|
            0 <= k < epoch.active_gateway_count ==> {
                let place = #[trigger] place_in(ctx.registry, epoch, k);
                &&& 0 <= place < ctx.registry.count
                &&& ctx.registry.gateways@[place].start_timestamp <= epoch.start_timestamp
            },
        forall|i: int|
            0 <= i < ctx.registry.count && (#[trigger] ctx.registry.gateways@[i]).start_timestamp
                <= epoch.start_timestamp ==> exists|k: int|
                0 <= k < epoch.active_gateway_count && #[trigger] place_in(ctx.registry, epoch, k) == i,
        forall|j: int, k: int|
            0 <= j < k < epoch.active_gateway_count ==> #[trigger] place_in(ctx.registry, epoch, j)
                != #[trigger] place_in(ctx.registry, epoch, k),
{
    let slots = ctx.registry.gateways@;
    let count = ctx.registry.count as int;
    let start = epoch.start_timestamp as int;
    let active = epoch.active_gateway_count as int;
    if active > 0 {
        places_are_on_time(slots, count, start, active, 0);
    }
    assert forall|k: int| 0 <= k < active implies {
        let place = #[trigger] place_in(ctx.registry, epoch, k);
        &&& 0 <= place < count
        &&& slots[place].start_timestamp <= start
    } by {
        places_are_on_time(slots, count, start, active, k);
    }
    assert forall|i: int| 0 <= i < count && (#[trigger] slots[i]).start_timestamp <= start implies exists|k: int|
        0 <= k < active && #[trigger] place_in(ctx.registry, epoch, k) == i by {
        every_slot_on_time_has_a_place(slots, count, start, active, i);
        let k = choose|k: int| 0 <= k < active && #[trigger] place_of(slots, count, start, active, k) == i;
        assert(place_in(ctx.registry, epoch, k) == i);
    }
    assert forall|j: int, k: int| 0 <= j < k < active implies #[trigger] place_in(ctx.registry, epoch, j)
        != #[trigger] place_in(ctx.registry, epoch, k) by {
        places_are_distinct(slots, count, start, active, j, k);
    }
}

/// An epoch that has just been created can only be tallied: it is prescribed only
/// once it is tallied, observed and distributed only once it is prescribed, and
/// closed only once it is distributed.
pub proof fn new_epoch_waits_for_its_steps(
    ctx: CreateEpoch,
    hashchain: Seq<u8>,
    epoch: Epoch,
    prescribe: PrescribeEpoch,
    report: SaveObservations,
    distribute: DistributeEpoch,
    close: CloseEpoch,
    gateway_count: u16,
    now: i64,
)
    requires
        newly_created(ctx, hashchain, epoch),
        prescribe.epoch == epoch,
        report.epoch == epoch,
        distribute.epoch == epoch,
        close.epoch == epoch,
    ensures
        prescribe_refusal(prescribe) == Some(GarError::WeightsNotTallied),
        observation_refusal(report, gateway_count, now) == Some(GarError::PrescriptionsNotDone),
        distribution_refusal(distribute, now) is Some,
        close_refusal(close) == Some(GarError::EpochNotCloseable),
{
}

/// Once an epoch is prescribed it is not prescribed again, and its observers, names
/// and rewards stand.
pub proof fn prescribing_happens_once(ctx: PrescribeEpoch, p: Prescription, after: Epoch, again: PrescribeEpoch)
    requires
        is_prescribed(ctx, p, after),
        prescribe_refusal(ctx) is None,
        again.epoch == after,
    ensures
        prescribe_refusal(again) == Some(GarError::PrescriptionsAlreadyDone),
{
}

/// Switching epochs off takes effect after the delay: until then epochs are created
/// as before, and from then on none is.
pub proof fn disabling_takes_effect_after_delay(
    ctx: UpdateEpochSettings,
    asked_at: i64,
    before: CreateEpoch,
    after: CreateEpoch,
    now: i64,
)
    requires
        toggle_refusal(ctx, false, asked_at) is None,
        0 < asked_at,
        ctx.epoch_settings.disable_at == 0,
        before.epoch_settings == ctx.epoch_settings,
        after == (CreateEpoch {
            epoch_settings: EpochSettings {
                disable_at: (asked_at + EpochSettings::EPOCH_DISABLE_DELAY) as i64,
                ..ctx.epoch_settings
            },
            ..before
        }),
    ensures
        now < asked_at + EpochSettings::EPOCH_DISABLE_DELAY ==> create_refusal(after, now) == create_refusal(
            before,
            now,
        ),
        now >= asked_at + EpochSettings::EPOCH_DISABLE_DELAY ==> create_refusal(after, now) is Some,
{
}

/// An epoch is created only while epochs are switched on and once its time has come. It
/// takes the next number, starts as many lengths of an epoch after the genesis as its
/// number says, and lasts one length. Its reward rate is the largest before the decay,
/// the smallest after it, and falls evenly with its number in between; what it has to
/// give is that part of the treasury, out of a million. It counts the gateways that
/// joined by its start, and nothing has been done in it yet.
pub proof fn new_epoch_has_its_place_rate_and_budget(
    ctx: CreateEpoch,
    now: i64,
    hashchain: [u8; 32],
    r: Result<(EpochSettings, Epoch, EpochCreatedEvent), GarError>,
)
    requires
        ctx.registry.wf(),
        call_ensures(create_epoch_with, (ctx, now, hashchain), r),
    ensures
        r matches Err(e) ==> match e {
            GarError::InvalidParameter => ctx.protocol_token_account != ctx.settings.protocol_token_account,
            GarError::EpochsNotEnabled => !ctx.epoch_settings.enabled || 0 < ctx.epoch_settings.disable_at <= now,
            GarError::EpochNotStarted => ctx.epoch_settings.current_epoch_index <= i64::MAX ==> now
                < ctx.epoch_settings.genesis_timestamp + ctx.epoch_settings.current_epoch_index
                * ctx.epoch_settings.epoch_duration,
            GarError::ArithmeticOverflow => {
                let s = ctx.epoch_settings;
                let start = s.genesis_timestamp + s.current_epoch_index * s.epoch_duration;
                ||| s.current_epoch_index > i64::MAX
                ||| s.current_epoch_index * s.epoch_duration > i64::MAX
                ||| s.current_epoch_index * s.epoch_duration < i64::MIN
                ||| start > i64::MAX || start < i64::MIN
                ||| start + s.epoch_duration > i64::MAX || start + s.epoch_duration < i64::MIN
            },
            _ => false,
        },
        r matches Ok((after, epoch, event)) ==> {
            let s = ctx.epoch_settings;
            let (max, min) = (s.max_reward_rate, s.min_reward_rate);
            let (first, last) = (s.reward_decay_start_epoch, s.reward_decay_last_epoch);
            &&& ctx.protocol_token_account == ctx.settings.protocol_token_account
            &&& s.enabled
            &&& s.disable_at <= 0 || now < s.disable_at
            &&& epoch.epoch_index == s.current_epoch_index
            &&& epoch.epoch_index <= i64::MAX ==> epoch.start_timestamp == s.genesis_timestamp + epoch.epoch_index
                * s.epoch_duration
            &&& epoch.start_timestamp <= now
            &&& epoch.end_timestamp == epoch.start_timestamp + s.epoch_duration
            &&& after.current_epoch_index == epoch.epoch_index + 1
            &&& after == (EpochSettings { current_epoch_index: after.current_epoch_index, ..s })
            &&& first < last && min <= max ==> {
                &&& epoch.epoch_index <= first ==> epoch.reward_rate == max
                &&& epoch.epoch_index >= last ==> epoch.reward_rate == min
                &&& first <= epoch.epoch_index <= last ==> is_part(
                    max - epoch.reward_rate,
                    max - min,
                    epoch.epoch_index - first,
                    last - first,
                )
            }
            &&& epoch.reward_rate <= 1_000_000 ==> is_part(
                epoch.total_eligible_rewards as int,
                ctx.protocol_balance as int,
                epoch.reward_rate as int,
                1_000_000,
            )
            &&& epoch.active_gateway_count == ctx.registry.gateways@.take(ctx.registry.count as int).filter(
                |slot: GatewaySlot| slot.start_timestamp <= epoch.start_timestamp,
            ).len()
            &&& epoch.hashchain@ == hashchain@
            &&& epoch.bump == ctx.epoch_bump
            &&& epoch.version_bytes@ == seq![1u8, 0u8, 0u8]
            &&& epoch.tally_index == 0 && epoch.distribution_index == 0
            &&& epoch.weights_tallied == 0 && epoch.prescriptions_done == 0 && epoch.rewards_distributed == 0
            &&& epoch.observer_count == 0 && epoch.name_count == 0
            &&& epoch.observations_submitted == 0 && epoch.observations_closed == 0
            &&& epoch.per_gateway_reward == 0 && epoch.per_observer_reward == 0
            &&& epoch.total_composite_weight_lo == 0 && epoch.total_composite_weight_hi == 0
            &&& forall|i: int| 0 <= i < 3000 ==> epoch.failure_counts@[i] == 0
            &&& forall|i: int| 0 <= i < 7 ==> epoch.has_observed@[i] == 0
            &&& event.epoch_index == epoch.epoch_index
            &&& event.start_timestamp == epoch.start_timestamp
            &&& event.end_timestamp == epoch.end_timestamp
            &&& event.timestamp == now
        },
{
    let s = ctx.epoch_settings;
    let (first, last) = (s.reward_decay_start_epoch, s.reward_decay_last_epoch);
    if first < last && s.min_reward_rate <= s.max_reward_rate {
        lemma_rate_decays_evenly(s.current_epoch_index, s.max_reward_rate, s.min_reward_rate, first, last);
    }
    let b: int = ctx.protocol_balance as int;
    if r is Ok {
        let (after, epoch, event) = r->Ok_0;
        if epoch.reward_rate <= 1_000_000 {
            lemma_quotient_is_part(b, epoch.reward_rate as int, 1_000_000);
            lemma_share_bounded(epoch.reward_rate as int, b, 1_000_000);
        }
        lemma_count_is_filter(ctx.registry.gateways@, ctx.registry.count as int, epoch.start_timestamp as int);
        assert((|slot: GatewaySlot| slot.start_timestamp <= epoch.start_timestamp) =~= (|slot: GatewaySlot|
            slot.start_timestamp <= epoch.start_timestamp as int));
    }
}

/// Epochs follow one another without a gap: the next one has the next number, and
/// starts when the one before ends.
pub proof fn next_epoch_starts_when_the_last_ends(
    ctx: CreateEpoch,
    now: i64,
    hashchain: [u8; 32],
    made: (EpochSettings, Epoch, EpochCreatedEvent),
    ctx2: CreateEpoch,
    later: i64,
    hashchain2: [u8; 32],
    made2: (EpochSettings, Epoch, EpochCreatedEvent),
)
    requires
        ctx.registry.wf(),
        ctx2.registry.wf(),
        call_ensures(create_epoch_with, (ctx, now, hashchain), Ok::<_, GarError>(made)),
        ctx2.epoch_settings == made.0,
        call_ensures(create_epoch_with, (ctx2, later, hashchain2), Ok::<_, GarError>(made2)),
        ctx.epoch_settings.current_epoch_index < i64::MAX,
    ensures
        made2.1.epoch_index == made.1.epoch_index + 1,
        made2.1.start_timestamp == made.1.end_timestamp,
        later >= made.1.end_timestamp,
{
    let i: int = ctx.epoch_settings.current_epoch_index as int;
    let d: int = ctx.epoch_settings.epoch_duration as int;
    assert((i + 1) * d == i * d + d) by (nonlinear_arith);
}

/// The randomness of an epoch is the digest of the slot, of its number and of the time,
/// eight bytes each; but for that, `create_epoch` does what `create_epoch_with` does.
pub proof fn new_epoch_hashes_slot_number_and_time(
    ctx: CreateEpoch,
    clock: Clock,
    hashchain: [u8; 32],
    bytes: Seq<u8>,
    with: Result<(EpochSettings, Epoch, EpochCreatedEvent), GarError>,
    r: Result<(EpochSettings, Epoch, EpochCreatedEvent), GarError>,
)
    requires
        ctx.registry.wf(),
        bytes.len() == 24,
        le_value(bytes.subrange(0, 8)) == clock.slot,
        le_value(bytes.subrange(8, 16)) == ctx.epoch_settings.current_epoch_index,
        le_value(bytes.subrange(16, 24)) == clock.unix_timestamp as u64,
        hashchain@ == sha256(bytes),
        call_ensures(create_epoch_with, (ctx, clock.unix_timestamp, hashchain), with),
        call_ensures(create_epoch, (ctx, clock), r),
    ensures
        match r {
            Err(e) => with == Err::<(EpochSettings, Epoch, EpochCreatedEvent), GarError>(e),
            Ok((after, epoch, event)) => with matches Ok((after2, epoch2, event2)) && after == after2 && event == event2
                && epoch.hashchain@ == epoch2.hashchain@ && epoch.reward_rate == epoch2.reward_rate
                && epoch.start_timestamp == epoch2.start_timestamp && epoch.end_timestamp == epoch2.end_timestamp
                && epoch.total_eligible_rewards == epoch2.total_eligible_rewards && epoch.active_gateway_count
                == epoch2.active_gateway_count && epoch.epoch_index == epoch2.epoch_index && epoch.bump == epoch2.bump
                && epoch.tally_index == epoch2.tally_index && epoch.distribution_index == epoch2.distribution_index,
        },
{
    lemma_le_bytes_inverse(bytes.subrange(0, 8), clock.slot);
    lemma_le_bytes_inverse(bytes.subrange(8, 16), ctx.epoch_settings.current_epoch_index);
    lemma_le_bytes_inverse(bytes.subrange(16, 24), clock.unix_timestamp as u64);
    assert(bytes =~= bytes.subrange(0, 8) + bytes.subrange(8, 16) + bytes.subrange(16, 24));
}

/// Only the authority switches epochs on or off. Switched on, epochs are created at
/// once; switched off, they are created for seven days more, and then no longer.
pub proof fn epochs_run_seven_days_on_after_the_switch_off(
    ctx: UpdateEpochSettings,
    enabled: bool,
    now: i64,
    r: Result<(UpdateEpochSettings, EpochsToggledEvent), GarError>,
)
    requires
        call_ensures(set_epochs_enabled, (ctx, enabled, now), r),
    ensures
        r matches Err(e) ==> match e {
            GarError::Unauthorized => ctx.authority != ctx.epoch_settings.authority,
            GarError::ArithmeticOverflow => !enabled && now + 604_800 > i64::MAX,
            _ => false,
        },
        r matches Ok((after, event)) ==> {
            let (s, s2) = (ctx.epoch_settings, after.epoch_settings);
            &&& ctx.authority == s.authority
            &&& enabled ==> s2.enabled && s2.disable_at == 0
            &&& !enabled ==> s2.enabled == s.enabled && s2.disable_at == now + 604_800
            &&& s2 == (EpochSettings { enabled: s2.enabled, disable_at: s2.disable_at, ..s })
            &&& after.authority == ctx.authority
            &&& event.admin == ctx.authority
            &&& event.enabled == enabled
            &&& event.timestamp == now
        },
{
}

/// A switch-off takes effect on the creation of epochs exactly seven days later.
pub proof fn no_epoch_is_created_seven_days_after_the_switch_off(
    ctx: UpdateEpochSettings,
    now: i64,
    done: (UpdateEpochSettings, EpochsToggledEvent),
    create: CreateEpoch,
    t: i64,
    hashchain: [u8; 32],
    r: Result<(EpochSettings, Epoch, EpochCreatedEvent), GarError>,
)
    requires
        call_ensures(set_epochs_enabled, (ctx, false, now), Ok::<_, GarError>(done)),
        ctx.epoch_settings.enabled,
        now >= 0,
        create.registry.wf(),
        create.epoch_settings == done.0.epoch_settings,
        create.protocol_token_account == create.settings.protocol_token_account,
        call_ensures(create_epoch_with, (create, t, hashchain), r),
    ensures
        t >= now + 604_800 <==> r == Err::<(EpochSettings, Epoch, EpochCreatedEvent), GarError>(
            GarError::EpochsNotEnabled,
        ),
{
}

/// A new length of an epoch is at least a minute, only the authority sets it, and the
/// next epoch then starts now and lasts the new length.
pub proof fn new_duration_starts_the_next_epoch_now(
    ctx: UpdateEpochSettings,
    new_duration: i64,
    now: i64,
    r: Result<(UpdateEpochSettings, EpochDurationUpdatedEvent), GarError>,
)
    requires
        call_ensures(admin_set_epoch_duration, (ctx, new_duration, now), r),
        ctx.epoch_settings.current_epoch_index <= i64::MAX,
    ensures
        r matches Err(e) ==> match e {
            GarError::Unauthorized => ctx.authority != ctx.epoch_settings.authority,
            GarError::InvalidParameter => new_duration < 60,
            GarError::ArithmeticOverflow => ctx.epoch_settings.current_epoch_index * new_duration > i64::MAX || now
                - ctx.epoch_settings.current_epoch_index * new_duration < i64::MIN,
            _ => false,
        },
        r matches Ok((after, event)) ==> {
            let (s, s2) = (ctx.epoch_settings, after.epoch_settings);
            &&& ctx.authority == s.authority
            &&& new_duration >= 60
            &&& s2.epoch_duration == new_duration
            &&& s2.genesis_timestamp + s.current_epoch_index * new_duration == now
            &&& s2 == (EpochSettings {
                epoch_duration: s2.epoch_duration,
                genesis_timestamp: s2.genesis_timestamp,
                ..s
            })
            &&& after.authority == ctx.authority
            &&& event.admin == ctx.authority
            &&& event.old_duration == s.epoch_duration
            &&& event.new_duration == new_duration
            &&& event.old_genesis_timestamp == s.genesis_timestamp
            &&& event.new_genesis_timestamp == s2.genesis_timestamp
            &&& event.current_epoch_index == s.current_epoch_index
            &&& event.timestamp == now
        },
{
    let i: int = ctx.epoch_settings.current_epoch_index as int;
    let d: int = new_duration as int;
    if d >= 60 {
        assert(i * d >= 0) by (nonlinear_arith)
            requires
                i >= 0,
                d >= 0,
        ;
    }
}

/// The counter is advanced by the authority alone, from zero, to a hundred thousand at
/// most, before epochs are switched on; the next epoch then starts now.
pub proof fn advanced_counter_starts_the_next_epoch_now(
    ctx: UpdateEpochSettings,
    new_index: u64,
    now: i64,
    r: Result<(UpdateEpochSettings, EpochCounterAdvancedEvent), GarError>,
)
    requires
        call_ensures(admin_set_current_epoch_index, (ctx, new_index, now), r),
    ensures
        r matches Err(e) ==> match e {
            GarError::Unauthorized => ctx.authority != ctx.epoch_settings.authority,
            GarError::InvalidParameter => new_index == 0 || new_index > 100_000,
            GarError::EpochsAlreadyEnabled => ctx.epoch_settings.enabled,
            GarError::EpochCounterAlreadyAdvanced => ctx.epoch_settings.current_epoch_index != 0,
            GarError::ArithmeticOverflow => {
                let offset = new_index * ctx.epoch_settings.epoch_duration;
                offset > i64::MAX || offset < i64::MIN || now - offset > i64::MAX || now - offset < i64::MIN
            },
            _ => false,
        },
        r matches Ok((after, event)) ==> {
            let (s, s2) = (ctx.epoch_settings, after.epoch_settings);
            &&& ctx.authority == s.authority
            &&& 0 < new_index <= 100_000
            &&& !s.enabled
            &&& s.current_epoch_index == 0
            &&& s2.current_epoch_index == new_index
            &&& s2.genesis_timestamp + new_index * s.epoch_duration == now
            &&& s2 == (EpochSettings {
                current_epoch_index: s2.current_epoch_index,
                genesis_timestamp: s2.genesis_timestamp,
                ..s
            })
            &&& after.authority == ctx.authority
            &&& event.admin == ctx.authority
            &&& event.new_index == new_index
            &&& event.old_genesis_timestamp == s.genesis_timestamp
            &&& event.new_genesis_timestamp == s2.genesis_timestamp
            &&& event.epoch_duration == s.epoch_duration
            &&& event.timestamp == now
        },
{
}

/// Only the authority closes the epoch settings or a stale epoch, the latter only while
/// accounts are being imported.
pub proof fn only_the_authority_closes_settings_and_stale_epochs(
    close: CloseEpochSettings,
    closed: Result<CloseEpochSettings, GarError>,
    stale: AdminCloseStaleEpoch,
    gone: Result<AdminCloseStaleEpoch, GarError>,
)
    requires
        call_ensures(close_epoch_settings, (close,), closed),
        call_ensures(admin_close_stale_epoch, (stale,), gone),
    ensures
        closed is Ok <==> close.authority == close.epoch_settings.authority,
        closed matches Ok(after) ==> after == close,
        closed matches Err(e) ==> e == GarError::Unauthorized,
        gone is Ok <==> stale.settings.migration_active && stale.authority == stale.epoch_settings.authority,
        gone matches Ok(after) ==> after == stale,
        gone matches Err(e) ==> match e {
            GarError::MigrationInactive => !stale.settings.migration_active,
            GarError::Unauthorized => stale.authority != stale.epoch_settings.authority,
            _ => false,
        },
{
}

/// An epoch is closed once it is distributed, seven more have been created, and as many
/// of its observations have been closed as were submitted. Its rent comes back.
pub proof fn epoch_closes_after_seven_more(ctx: CloseEpoch, now: i64, r: Result<EpochClosedEvent, GarError>)
    requires
        call_ensures(close_epoch, (ctx, now), r),
        ctx.epoch.epoch_index <= u64::MAX - 7,
    ensures
        r is Ok <==> ctx.epoch.rewards_distributed != 0 && ctx.epoch_settings.current_epoch_index
            >= ctx.epoch.epoch_index + 7 && ctx.epoch.observations_closed == ctx.epoch.observations_submitted,
        r matches Err(e) ==> match e {
            GarError::EpochNotCloseable => ctx.epoch.rewards_distributed == 0
                || ctx.epoch_settings.current_epoch_index < ctx.epoch.epoch_index + 7,
            GarError::EpochObservationsNotClosed => ctx.epoch.observations_closed
                != ctx.epoch.observations_submitted,
            _ => false,
        },
        r matches Ok(event) ==> {
            &&& event.epoch_index == ctx.epoch.epoch_index
            &&& event.rent_recovered == ctx.epoch_lamports
            &&& event.timestamp == now
        },
{
}

} // verus!
