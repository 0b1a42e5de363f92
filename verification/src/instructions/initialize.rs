//! Setting the program up, and repairing its settings.

use vstd::prelude::*;
use crate::addresses::bytes_of;
use crate::arith::minus_or_zero;
use crate::error::GarError;
use crate::events::WithdrawalPeriodUpdatedEvent;
use crate::params::{InitializeEpochParams, InitializeParams};
use crate::pubkey::{sha256, sha256_hash, Pubkey};
use crate::state::accounts::{EpochSettings, Gateway, GatewayRegistry, GatewaySettings};
use crate::state::constants::{
    epoch_settings_version, gateway_settings_version, GATEWAY_OPERATOR_REWARD_RATE,
    MAX_EXPEDITED_WITHDRAWAL_PENALTY, MAX_REWARD_RATE, MIN_EXPEDITED_WITHDRAWAL_AMOUNT,
    MIN_EXPEDITED_WITHDRAWAL_PENALTY, MIN_REWARD_RATE, MISSED_OBSERVATION_PENALTY, OBSERVER_REWARD_RATE,
    REWARD_DECAY_LAST_EPOCH, REWARD_DECAY_START_EPOCH, WITHDRAWAL_LOCK_PERIOD,
};

verus! {

/// The accounts of `initialize`.
#[derive(Clone, Copy, Debug)]
pub struct InitializeGar {
    pub mint: Pubkey,
    pub payer: Pubkey,
    /// Who may upgrade the program; `None` if nobody may.
    pub upgrade_authority: Option<Pubkey>,
    /// The bump seed of the settings to be opened.
    pub settings_bump: u8,
}

/// Whether the payer is the one who may upgrade the program.
pub open spec fn may_upgrade(upgrade_authority: Option<Pubkey>, payer: Pubkey) -> bool {
    upgrade_authority == Some(payer)
}

fn is_upgrade_authority(upgrade_authority: &Option<Pubkey>, payer: &Pubkey) -> (r: bool)
    ensures
        r == may_upgrade(*upgrade_authority, *payer),
{
    match upgrade_authority {
        Some(authority) => *authority == *payer,
        None => false,
    }
}

/// Opens the gateway settings with their first values. Only the program's upgrade
/// authority may do so.
pub fn initialize(ctx: InitializeGar, params: InitializeParams) -> (r: Result<GatewaySettings, GarError>)
    ensures
        match r {
            Err(e) => !may_upgrade(ctx.upgrade_authority, ctx.payer) && e == GarError::Unauthorized,
            Ok(settings) => {
                &&& may_upgrade(ctx.upgrade_authority, ctx.payer)
                &&& settings == (GatewaySettings {
                    authority: params.authority,
                    mint: ctx.mint,
                    min_operator_stake: Gateway::MIN_OPERATOR_STAKE,
                    min_delegate_stake: 10_000_000,
                    withdrawal_period: WITHDRAWAL_LOCK_PERIOD,
                    max_expedited_withdrawal_penalty: MAX_EXPEDITED_WITHDRAWAL_PENALTY,
                    min_expedited_withdrawal_penalty: MIN_EXPEDITED_WITHDRAWAL_PENALTY,
                    min_expedited_withdrawal_amount: MIN_EXPEDITED_WITHDRAWAL_AMOUNT,
                    max_delegates_per_gateway: 10_000,
                    migration_active: true,
                    migration_authority: params.migration_authority,
                    stake_token_account: params.stake_token_account,
                    protocol_token_account: params.protocol_token_account,
                    arns_program_id: params.arns_program_id,
                    total_staked: 0,
                    total_delegated: 0,
                    total_withdrawn: 0,
                    bump: ctx.settings_bump,
                    version: gateway_settings_version(),
                })
            },
        },
{
    if !is_upgrade_authority(&ctx.upgrade_authority, &ctx.payer) {
        return Err(GarError::Unauthorized);
    }
    Ok(
        GatewaySettings {
            authority: params.authority,
            mint: ctx.mint,
            min_operator_stake: Gateway::MIN_OPERATOR_STAKE,
            min_delegate_stake: 10_000_000,
            withdrawal_period: WITHDRAWAL_LOCK_PERIOD,
            max_expedited_withdrawal_penalty: MAX_EXPEDITED_WITHDRAWAL_PENALTY,
            min_expedited_withdrawal_penalty: MIN_EXPEDITED_WITHDRAWAL_PENALTY,
            min_expedited_withdrawal_amount: MIN_EXPEDITED_WITHDRAWAL_AMOUNT,
            max_delegates_per_gateway: 10_000,
            migration_active: true,
            migration_authority: params.migration_authority,
            stake_token_account: params.stake_token_account,
            protocol_token_account: params.protocol_token_account,
            arns_program_id: params.arns_program_id,
            total_staked: 0,
            total_delegated: 0,
            total_withdrawn: 0,
            bump: ctx.settings_bump,
            version: gateway_settings_version(),
        },
    )
}

/// The size of the registry's account with its discriminator.
pub const REGISTRY_ACCOUNT_SIZE: usize = 8 + GatewayRegistry::SIZE;

/// By how many bytes the runtime lets an account grow in one transaction.
pub const MAX_GROWTH: usize = 10_240;

/// The accounts of `create_gateway_registry`.
#[derive(Clone, Copy, Debug)]
pub struct CreateGatewayRegistry {
    pub settings: GatewaySettings,
    /// How many bytes the registry's account holds.
    pub registry_len: usize,
    pub authority: Pubkey,
}

/// The next step in opening the registry.
#[derive(Clone, Copy, Debug, PartialEq, Eq, Structural)]
pub struct RegistryStep {
    /// Whether the account is to be opened rather than grown.
    pub open: bool,
    /// The size that it is to have.
    pub size: usize,
    /// Whether that is its full size, so that its header is to be written.
    pub complete: bool,
}

/// The size that the registry's account has after one more step.
pub open spec fn next_size(current: int) -> int {
    crate::arith::lesser(current + MAX_GROWTH, REGISTRY_ACCOUNT_SIZE as int)
}

/// Opens the registry's account, which is too large for one transaction, step by
/// step: to be called until the step is complete.
pub fn create_gateway_registry(ctx: CreateGatewayRegistry) -> (r: Result<RegistryStep, GarError>)
    ensures
        match r {
            Err(e) => {
                ||| ctx.settings.authority != ctx.authority && e == GarError::Unauthorized
                ||| ctx.settings.authority == ctx.authority && ctx.registry_len >= REGISTRY_ACCOUNT_SIZE && e
                    == GarError::GatewayRegistryAlreadyExists
            },
            Ok(step) => {
                &&& ctx.settings.authority == ctx.authority
                &&& ctx.registry_len < REGISTRY_ACCOUNT_SIZE
                &&& step.open == (ctx.registry_len == 0)
                &&& step.size == next_size(ctx.registry_len as int)
                &&& step.complete == (step.size == REGISTRY_ACCOUNT_SIZE)
            },
        },
{
    if ctx.settings.authority != ctx.authority {
        return Err(GarError::Unauthorized);
    }
    if ctx.registry_len >= REGISTRY_ACCOUNT_SIZE {
        return Err(GarError::GatewayRegistryAlreadyExists);
    }
    let grown: usize = ctx.registry_len + MAX_GROWTH;
    let size: usize = if grown <= REGISTRY_ACCOUNT_SIZE {
        grown
    } else {
        REGISTRY_ACCOUNT_SIZE
    };
    Ok(RegistryStep { open: ctx.registry_len == 0, size, complete: size == REGISTRY_ACCOUNT_SIZE })
}

/// What is missing for an account to be exempt from rent.
pub fn lamports_needed(minimum_balance: u64, lamports: u64) -> (r: u64)
    ensures
        r == minus_or_zero(minimum_balance as int, lamports as int),
{
    minimum_balance.saturating_sub(lamports)
}

/// The name of the registry's account type: `account:GatewayRegistry`.
pub const GATEWAY_REGISTRY_NAME: [u8; 23] = [97, 99, 99, 111, 117, 110, 116, 58, 71, 97, 116, 101, 119, 97, 121, 82, 101, 103, 105, 115, 116, 114, 121];

/// The registry's header: the first eight bytes of the digest of its type's name,
/// and the authority. What follows is left as it is.
pub open spec fn with_registry_header(data: Seq<u8>, authority: Pubkey) -> Seq<u8> {
    sha256(GATEWAY_REGISTRY_NAME@).take(8) + authority@ + data.skip(40)
}

/// Writes the registry's header into the data of its account.
pub fn write_gateway_registry_header(data: &mut Vec<u8>, authority: &Pubkey)
    requires
        old(data)@.len() >= 40,
    ensures
        final(data)@ == with_registry_header(old(data)@, *authority),
        final(data)@.len() == old(data)@.len(),
{
    let digest: [u8; 32] = sha256_hash(&bytes_of(&GATEWAY_REGISTRY_NAME));
    let mut i: usize = 0;
    while i < 8
        invariant
            i <= 8,
            data@.len() == old(data)@.len(),
            data@.len() >= 40,
            forall|j: int| 0 <= j < i ==> data@[j] == digest@[j],
            forall|j: int| i <= j < data@.len() ==> data@[j] == old(data)@[j],
        decreases 8 - i,
    {
        data.set(i, digest[i]);
        i = i + 1;
    }
    let mut k: usize = 0;
    while k < 32
        invariant
            k <= 32,
            data@.len() == old(data)@.len(),
            data@.len() >= 40,
            forall|j: int| 0 <= j < 8 ==> data@[j] == digest@[j],
            forall|j: int| 0 <= j < k ==> data@[8 + j] == authority@[j],
            forall|j: int| 8 + k <= j < data@.len() ==> data@[j] == old(data)@[j],
        decreases 32 - k,
    {
        data.set(8 + k, authority.bytes[k]);
        k = k + 1;
    }
    assert(data@ =~= with_registry_header(old(data)@, *authority)) by {
        assert forall|j: int| 8 <= j < 40 implies data@[j] == authority@[j - 8] by {
            assert(data@[8 + (j - 8)] == authority@[j - 8]);
        }
    }
}

/// The accounts of `initialize_epochs`.
#[derive(Clone, Copy, Debug)]
pub struct InitializeEpochs {
    pub payer: Pubkey,
    /// Who may upgrade the program; `None` if nobody may.
    pub upgrade_authority: Option<Pubkey>,
    /// The bump seed of the settings to be opened.
    pub epoch_settings_bump: u8,
}

/// Why the epoch settings cannot be opened, if so.
pub open spec fn initialize_epochs_refusal(ctx: InitializeEpochs, params: InitializeEpochParams) -> Option<GarError> {
    if !may_upgrade(ctx.upgrade_authority, ctx.payer) {
        Some(GarError::Unauthorized)
    } else if params.tenure_weight_duration <= 0 {
        Some(GarError::InvalidParameter)
    } else if params.max_tenure_weight == 0 {
        Some(GarError::InvalidParameter)
    } else {
        None
    }
}

/// Opens the epoch settings. Epochs count from zero, start now and are not enabled
/// yet. Only the program's upgrade authority may do so.
pub fn initialize_epochs(ctx: InitializeEpochs, params: InitializeEpochParams, now: i64) -> (r: Result<
    EpochSettings,
    GarError,
>)
    ensures
        match r {
            Err(e) => initialize_epochs_refusal(ctx, params) == Some(e),
            Ok(settings) => {
                &&& initialize_epochs_refusal(ctx, params) is None
                &&& settings == (EpochSettings {
                    authority: params.authority,
                    epoch_duration: params.epoch_duration,
                    prescribed_observer_count: params.observer_count,
                    prescribed_name_count: params.name_count,
                    min_observer_stake: params.min_observer_stake,
                    slash_rate: params.slash_rate,
                    enabled: false,
                    current_epoch_index: 0,
                    genesis_timestamp: now,
                    tenure_weight_duration: params.tenure_weight_duration,
                    max_tenure_weight: params.max_tenure_weight,
                    gateway_reward_ratio: GATEWAY_OPERATOR_REWARD_RATE,
                    observer_reward_ratio: OBSERVER_REWARD_RATE,
                    missed_observation_penalty_rate: MISSED_OBSERVATION_PENALTY,
                    max_reward_rate: MAX_REWARD_RATE,
                    min_reward_rate: MIN_REWARD_RATE,
                    reward_decay_start_epoch: REWARD_DECAY_START_EPOCH,
                    reward_decay_last_epoch: REWARD_DECAY_LAST_EPOCH,
                    max_consecutive_failures: 30,
                    failed_gateway_slash_rate: 1_000_000,
                    disable_at: 0,
                    bump: ctx.epoch_settings_bump,
                    version: epoch_settings_version(),
                })
            },
        },
{
    if !is_upgrade_authority(&ctx.upgrade_authority, &ctx.payer) {
        return Err(GarError::Unauthorized);
    }
    if params.tenure_weight_duration <= 0 {
        return Err(GarError::InvalidParameter);
    }
    if params.max_tenure_weight == 0 {
        return Err(GarError::InvalidParameter);
    }
    Ok(
        EpochSettings {
            authority: params.authority,
            epoch_duration: params.epoch_duration,
            prescribed_observer_count: params.observer_count,
            prescribed_name_count: params.name_count,
            min_observer_stake: params.min_observer_stake,
            slash_rate: params.slash_rate,
            enabled: false,
            current_epoch_index: 0,
            genesis_timestamp: now,
            tenure_weight_duration: params.tenure_weight_duration,
            max_tenure_weight: params.max_tenure_weight,
            gateway_reward_ratio: GATEWAY_OPERATOR_REWARD_RATE,
            observer_reward_ratio: OBSERVER_REWARD_RATE,
            missed_observation_penalty_rate: MISSED_OBSERVATION_PENALTY,
            max_reward_rate: MAX_REWARD_RATE,
            min_reward_rate: MIN_REWARD_RATE,
            reward_decay_start_epoch: REWARD_DECAY_START_EPOCH,
            reward_decay_last_epoch: REWARD_DECAY_LAST_EPOCH,
            max_consecutive_failures: 30,
            failed_gateway_slash_rate: 1_000_000,
            disable_at: 0,
            bump: ctx.epoch_settings_bump,
            version: epoch_settings_version(),
        },
    )
}

/// The accounts of `admin_repair_settings`.
#[derive(Clone, Copy, Debug)]
pub struct AdminRepairSettings {
    pub settings: GatewaySettings,
    pub authority: Pubkey,
}

/// Why the settings cannot be repaired, if so.
pub open spec fn repair_refusal(ctx: AdminRepairSettings) -> Option<GarError> {
    if ctx.settings.authority != ctx.authority {
        Some(GarError::Unauthorized)
    } else if !ctx.settings.migration_active {
        Some(GarError::MigrationInactive)
    } else {
        None
    }
}

/// Replaces the mint and the two pinned token accounts, all three together, while
/// accounts are still being imported.
pub fn admin_repair_settings(
    ctx: AdminRepairSettings,
    new_mint: Pubkey,
    new_stake_token_account: Pubkey,
    new_protocol_token_account: Pubkey,
) -> (r: Result<AdminRepairSettings, GarError>)
    ensures
        match r {
            Err(e) => repair_refusal(ctx) == Some(e),
            Ok(after) => {
                &&& repair_refusal(ctx) is None
                &&& after == (AdminRepairSettings {
                    settings: GatewaySettings {
                        mint: new_mint,
                        stake_token_account: new_stake_token_account,
                        protocol_token_account: new_protocol_token_account,
                        ..ctx.settings
                    },
                    ..ctx
                })
            },
        },
{
    let mut ctx = ctx;
    if ctx.settings.authority != ctx.authority {
        return Err(GarError::Unauthorized);
    }
    if !ctx.settings.migration_active {
        return Err(GarError::MigrationInactive);
    }
    ctx.settings.mint = new_mint;
    ctx.settings.stake_token_account = new_stake_token_account;
    ctx.settings.protocol_token_account = new_protocol_token_account;
    Ok(ctx)
}

/// The accounts of `admin_set_withdrawal_period`.
#[derive(Clone, Copy, Debug)]
pub struct AdminSetWithdrawalPeriod {
    pub settings: GatewaySettings,
    pub authority: Pubkey,
}

/// Why the withdrawal period cannot be changed, if so.
pub open spec fn period_refusal(ctx: AdminSetWithdrawalPeriod, new_period_seconds: i64) -> Option<GarError> {
    if ctx.settings.authority != ctx.authority {
        Some(GarError::Unauthorized)
    } else if new_period_seconds < 60 {
        Some(GarError::InvalidParameter)
    } else {
        None
    }
}

/// Changes how long new withdrawals are locked. Those that are open keep their
/// lock.
pub fn admin_set_withdrawal_period(ctx: AdminSetWithdrawalPeriod, new_period_seconds: i64, now: i64) -> (r: Result<
    (AdminSetWithdrawalPeriod, WithdrawalPeriodUpdatedEvent),
    GarError,
>)
    ensures
        match r {
            Err(e) => period_refusal(ctx, new_period_seconds) == Some(e),
            Ok((after, event)) => {
                &&& period_refusal(ctx, new_period_seconds) is None
                &&& after == (AdminSetWithdrawalPeriod {
                    settings: GatewaySettings { withdrawal_period: new_period_seconds, ..ctx.settings },
                    ..ctx
                })
                &&& event == (WithdrawalPeriodUpdatedEvent {
                    admin: ctx.authority,
                    old_period_seconds: ctx.settings.withdrawal_period,
                    new_period_seconds,
                    timestamp: now,
                })
            },
        },
{
    let mut ctx = ctx;
    if ctx.settings.authority != ctx.authority {
        return Err(GarError::Unauthorized);
    }
    if new_period_seconds < 60 {
        return Err(GarError::InvalidParameter);
    }
    let old_period: i64 = ctx.settings.withdrawal_period;
    ctx.settings.withdrawal_period = new_period_seconds;
    let event = WithdrawalPeriodUpdatedEvent {
        admin: ctx.authority,
        old_period_seconds: old_period,
        new_period_seconds,
        timestamp: now,
    };
    Ok((ctx, event))
}

/// Every step makes the registry's account larger, and none makes it larger than
/// it is to be.
pub proof fn registry_grows_each_step(current: int)
    requires
        0 <= current < REGISTRY_ACCOUNT_SIZE,
    ensures
        current < next_size(current) <= REGISTRY_ACCOUNT_SIZE,
        next_size(current) < REGISTRY_ACCOUNT_SIZE ==> next_size(current) == current + MAX_GROWTH,
{
}

/// Only the program's upgrade authority opens the settings. They carry the addresses that
/// were given; withdrawals are locked for thirty days, an early one costs half at first and
/// a tenth at last, nothing is staked, and imports are on.
pub proof fn settings_open_with_what_is_given(
    ctx: InitializeGar,
    params: InitializeParams,
    r: Result<GatewaySettings, GarError>,
)
    requires
        call_ensures(initialize, (ctx, params), r),
    ensures
        r is Ok <==> ctx.upgrade_authority == Some(ctx.payer),
        r matches Err(e) ==> e == GarError::Unauthorized,
        r matches Ok(s) ==> {
            &&& s.authority == params.authority
            &&& s.mint == ctx.mint
            &&& s.migration_authority == params.migration_authority
            &&& s.stake_token_account == params.stake_token_account
            &&& s.protocol_token_account == params.protocol_token_account
            &&& s.arns_program_id == params.arns_program_id
            &&& s.min_operator_stake == 20_000_000_000
            &&& s.min_delegate_stake == 10_000_000
            &&& s.withdrawal_period == 2_592_000
            &&& s.max_expedited_withdrawal_penalty == 500_000
            &&& s.min_expedited_withdrawal_penalty == 100_000
            &&& s.min_expedited_withdrawal_amount == 1_000_000
            &&& s.max_delegates_per_gateway == 10_000
            &&& s.migration_active
            &&& s.total_staked == 0 && s.total_delegated == 0 && s.total_withdrawn == 0
            &&& s.bump == ctx.settings_bump
            &&& s.version.major == 1 && s.version.minor == 0 && s.version.patch == 0
        },
{
}

/// The registry's account is opened and grown by the authority, ten kibibytes at a time and
/// never beyond the room for three thousand gateways. Each step ends where the next begins,
/// and the last is marked.
pub proof fn registry_grows_ten_kibibytes_at_a_time(
    ctx: CreateGatewayRegistry,
    r: Result<RegistryStep, GarError>,
    next: CreateGatewayRegistry,
    after: Result<RegistryStep, GarError>,
)
    requires
        call_ensures(create_gateway_registry, (ctx,), r),
        r is Ok,
        next.settings.authority == next.authority,
        next.registry_len == r->Ok_0.size,
        call_ensures(create_gateway_registry, (next,), after),
    ensures
        ({
            let step = r->Ok_0;
            &&& ctx.settings.authority == ctx.authority
            &&& step.open <==> ctx.registry_len == 0
            &&& step.complete <==> step.size == 168_048
            &&& step.size <= 168_048
            &&& !step.complete ==> step.size == ctx.registry_len + 10_240
            &&& step.complete ==> ctx.registry_len < step.size <= ctx.registry_len + 10_240
            &&& step.complete <==> after is Err
            &&& after matches Err(e) ==> e == GarError::GatewayRegistryAlreadyExists
            &&& after matches Ok(s) ==> !s.open && s.size > step.size
        }),
{
}

/// The registry is opened by the authority only.
pub proof fn only_the_authority_opens_the_registry(ctx: CreateGatewayRegistry, r: Result<RegistryStep, GarError>)
    requires
        call_ensures(create_gateway_registry, (ctx,), r),
    ensures
        r is Ok <==> ctx.settings.authority == ctx.authority && ctx.registry_len < 168_048,
        r == Err::<RegistryStep, GarError>(GarError::Unauthorized) <==> ctx.settings.authority != ctx.authority,
{
}

/// What an account lacks is the difference to the balance that it needs.
pub proof fn top_up_reaches_the_balance(minimum_balance: u64, lamports: u64, r: u64)
    requires
        call_ensures(lamports_needed, (minimum_balance, lamports), r),
    ensures
        lamports + r >= minimum_balance,
        r > 0 ==> lamports + r == minimum_balance,
{
}

/// The registry's header is the first eight bytes of the digest of
/// `account:GatewayRegistry`, and the authority behind them; all else stays.
pub proof fn registry_header_names_type_and_authority(data: &mut Vec<u8>, authority: Pubkey, name: Seq<u8>)
    requires
        old(data)@.len() >= 40,
        call_ensures(write_gateway_registry_header, (data, &authority), ()),
        name.len() == "account:GatewayRegistry"@.len(),
        forall|i: int| 0 <= i < name.len() ==> #[trigger] name[i] as int == "account:GatewayRegistry"@[i] as int,
    ensures
        final(data)@.len() == old(data)@.len(),
        final(data)@.take(8) == sha256(name).take(8),
        final(data)@.subrange(8, 40) == authority@,
        final(data)@.skip(40) == old(data)@.skip(40),
{
    reveal_strlit("account:GatewayRegistry");
    assert(name =~= GATEWAY_REGISTRY_NAME@);
    assert(final(data)@.take(8) =~= sha256(name).take(8));
    assert(final(data)@.subrange(8, 40) =~= authority@);
    assert(final(data)@.skip(40) =~= old(data)@.skip(40));
}

/// Only the program's upgrade authority opens the epoch settings. They carry what was given;
/// nine tenths of the rewards go to gateways and a tenth to observers, the rate falls from a
/// thousandth to half of that between two epochs, and epochs are off and count from zero.
pub proof fn epoch_settings_open_with_what_is_given(
    ctx: InitializeEpochs,
    params: InitializeEpochParams,
    now: i64,
    r: Result<EpochSettings, GarError>,
)
    requires
        call_ensures(initialize_epochs, (ctx, params, now), r),
    ensures
        r is Ok <==> ctx.upgrade_authority == Some(ctx.payer) && params.tenure_weight_duration > 0
            && params.max_tenure_weight > 0,
        r matches Err(e) ==> match e {
            GarError::Unauthorized => ctx.upgrade_authority != Some(ctx.payer),
            GarError::InvalidParameter => params.tenure_weight_duration <= 0 || params.max_tenure_weight == 0,
            _ => false,
        },
        r matches Ok(s) ==> {
            &&& s.authority == params.authority
            &&& s.epoch_duration == params.epoch_duration
            &&& s.prescribed_observer_count == params.observer_count
            &&& s.prescribed_name_count == params.name_count
            &&& s.min_observer_stake == params.min_observer_stake
            &&& s.slash_rate == params.slash_rate
            &&& s.tenure_weight_duration == params.tenure_weight_duration
            &&& s.max_tenure_weight == params.max_tenure_weight
            &&& !s.enabled
            &&& s.current_epoch_index == 0
            &&& s.genesis_timestamp == now
            &&& s.gateway_reward_ratio == 900_000
            &&& s.observer_reward_ratio == 100_000
            &&& s.gateway_reward_ratio + s.observer_reward_ratio == 1_000_000
            &&& s.missed_observation_penalty_rate == 250_000
            &&& s.max_reward_rate == 1_000
            &&& s.min_reward_rate == 500
            &&& s.reward_decay_start_epoch == 365
            &&& s.reward_decay_last_epoch == 547
            &&& s.max_consecutive_failures == 30
            &&& s.failed_gateway_slash_rate == 1_000_000
            &&& s.disable_at == 0
            &&& s.bump == ctx.epoch_settings_bump
            &&& s.version.major == 1 && s.version.minor == 0 && s.version.patch == 0
        },
{
}

/// The authority replaces mint and token accounts while imports are on, and changes the
/// withdrawal period to a minute or more at any time. Nothing else changes.
pub proof fn authority_repairs_settings(
    ctx: AdminRepairSettings,
    mint: Pubkey,
    stake: Pubkey,
    protocol: Pubkey,
    repaired: Result<AdminRepairSettings, GarError>,
    period_ctx: AdminSetWithdrawalPeriod,
    period: i64,
    now: i64,
    changed: Result<(AdminSetWithdrawalPeriod, WithdrawalPeriodUpdatedEvent), GarError>,
)
    requires
        call_ensures(admin_repair_settings, (ctx, mint, stake, protocol), repaired),
        call_ensures(admin_set_withdrawal_period, (period_ctx, period, now), changed),
    ensures
        repaired is Ok <==> ctx.settings.authority == ctx.authority && ctx.settings.migration_active,
        repaired matches Err(e) ==> match e {
            GarError::Unauthorized => ctx.settings.authority != ctx.authority,
            GarError::MigrationInactive => !ctx.settings.migration_active,
            _ => false,
        },
        repaired matches Ok(after) ==> {
            let s = after.settings;
            &&& s.mint == mint && s.stake_token_account == stake && s.protocol_token_account == protocol
            &&& s == (GatewaySettings {
                mint: s.mint,
                stake_token_account: s.stake_token_account,
                protocol_token_account: s.protocol_token_account,
                ..ctx.settings
            })
        },
        changed is Ok <==> period_ctx.settings.authority == period_ctx.authority && period >= 60,
        changed matches Err(e) ==> match e {
            GarError::Unauthorized => period_ctx.settings.authority != period_ctx.authority,
            GarError::InvalidParameter => period < 60,
            _ => false,
        },
        changed matches Ok((after, event)) ==> {
            let s = after.settings;
            &&& s.withdrawal_period == period
            &&& s == (GatewaySettings { withdrawal_period: s.withdrawal_period, ..period_ctx.settings })
            &&& event.admin == period_ctx.authority
            &&& event.old_period_seconds == period_ctx.settings.withdrawal_period
            &&& event.new_period_seconds == period
            &&& event.timestamp == now
        },
{
}

} // verus!
