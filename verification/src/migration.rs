//! Importing accounts while the migration is on, and ending it.

use vstd::prelude::*;
use crate::addresses::{bytes_of, registry_address, registry_pda};
use crate::error::GarError;
use crate::events::GarMigrationFinalizedEvent;
use crate::instructions::effects::Refusal;
use crate::instructions::epoch::Clock;
use crate::instructions::gateway_exit::registered;
use crate::pubkey::{
    derived_address, find_program_address, lemma_address_of, same_bytes, seeds_view, sha256, sha256_hash, Pubkey,
};
use crate::state::accounts::{
    AllowlistEntry, Delegation, Gateway, GatewayRegistry, GatewaySettings, GatewaySlot, Observation, ObserverLookup,
    RedelegationRecord, Withdrawal, WithdrawalCounter,
};
use crate::state::constants::{MIGRATION_DEADLINE, SCHEMA_VERSION_SIZE};
use crate::state::epoch::Epoch;
use crate::state::name_registry::le_u32;

verus! {

/// `account:Gateway`.
pub const GATEWAY_NAME: [u8; 15] = [97, 99, 99, 111, 117, 110, 116, 58, 71, 97, 116, 101, 119, 97, 121];

/// `account:Delegation`.
pub const DELEGATION_NAME: [u8; 18] = [97, 99, 99, 111, 117, 110, 116, 58, 68, 101, 108, 101, 103, 97, 116, 105, 111, 110];

/// `account:Withdrawal`.
pub const WITHDRAWAL_NAME: [u8; 18] = [97, 99, 99, 111, 117, 110, 116, 58, 87, 105, 116, 104, 100, 114, 97, 119, 97, 108];

/// `account:WithdrawalCounter`.
pub const WITHDRAWAL_COUNTER_NAME: [u8; 25] = [97, 99, 99, 111, 117, 110, 116, 58, 87, 105, 116, 104, 100, 114, 97, 119, 97, 108, 67, 111, 117, 110, 116, 101, 114];

/// `account:AllowlistEntry`.
pub const ALLOWLIST_ENTRY_NAME: [u8; 22] = [97, 99, 99, 111, 117, 110, 116, 58, 65, 108, 108, 111, 119, 108, 105, 115, 116, 69, 110, 116, 114, 121];

/// `account:RedelegationRecord`.
pub const REDELEGATION_RECORD_NAME: [u8; 26] = [97, 99, 99, 111, 117, 110, 116, 58, 82, 101, 100, 101, 108, 101, 103, 97, 116, 105, 111, 110, 82, 101, 99, 111, 114, 100];

/// `account:Observation`.
pub const OBSERVATION_NAME: [u8; 19] = [97, 99, 99, 111, 117, 110, 116, 58, 79, 98, 115, 101, 114, 118, 97, 116, 105, 111, 110];

/// `account:ObserverLookup`.
pub const OBSERVER_LOOKUP_NAME: [u8; 22] = [97, 99, 99, 111, 117, 110, 116, 58, 79, 98, 115, 101, 114, 118, 101, 114, 76, 111, 111, 107, 117, 112];

/// `account:Epoch`.
pub const EPOCH_NAME: [u8; 13] = [97, 99, 99, 111, 117, 110, 116, 58, 69, 112, 111, 99, 104];

/// The discriminator of an account type: the first eight bytes of the digest of its
/// name.
pub open spec fn discriminator_of(name: Seq<u8>) -> Seq<u8> {
    sha256(name).take(8)
}

fn matches_name<const N: usize>(disc: &[u8; 8], name: &[u8; N]) -> (r: bool)
    ensures
        r == (disc@ == discriminator_of(name@)),
{
    let digest: [u8; 32] = sha256_hash(&bytes_of(name));
    let mut i: usize = 0;
    while i < 8
        invariant
            i <= 8,
            digest@ == sha256(name@),
            forall|j: int| 0 <= j < i ==> disc@[j] == digest@[j],
        decreases 8 - i,
    {
        if disc[i] != digest[i] {
            assert(disc@[i as int] != discriminator_of(name@)[i as int]);
            return false;
        }
        i = i + 1;
    }
    assert(disc@ =~= discriminator_of(name@));
    true
}

/// The size of the account type with a given discriminator; `None` for a type that
/// is not imported. The two types that name an authority, the gateway settings and
/// the epoch settings, are not: an import could hand them to another.
pub open spec fn importable_size(disc: Seq<u8>) -> Option<usize> {
    if disc == discriminator_of(GATEWAY_NAME@) {
        Some(Gateway::SIZE)
    } else if disc == discriminator_of(DELEGATION_NAME@) {
        Some(Delegation::SIZE)
    } else if disc == discriminator_of(WITHDRAWAL_NAME@) {
        Some(Withdrawal::SIZE)
    } else if disc == discriminator_of(WITHDRAWAL_COUNTER_NAME@) {
        Some(WithdrawalCounter::SIZE)
    } else if disc == discriminator_of(ALLOWLIST_ENTRY_NAME@) {
        Some(AllowlistEntry::SIZE)
    } else if disc == discriminator_of(REDELEGATION_RECORD_NAME@) {
        Some(RedelegationRecord::SIZE)
    } else if disc == discriminator_of(OBSERVATION_NAME@) {
        Some(Observation::SIZE)
    } else if disc == discriminator_of(OBSERVER_LOOKUP_NAME@) {
        Some(ObserverLookup::SIZE)
    } else if disc == discriminator_of(EPOCH_NAME@) {
        Some(Epoch::SIZE)
    } else {
        None
    }
}

/// The size of the account type with a given discriminator; `None` for a type that
/// is not imported.
pub fn known_discriminator(disc: &[u8; 8]) -> (r: Option<usize>)
    ensures
        r == importable_size(disc@),
{
    if matches_name(disc, &GATEWAY_NAME) {
        return Some(Gateway::SIZE);
    }
    if matches_name(disc, &DELEGATION_NAME) {
        return Some(Delegation::SIZE);
    }
    if matches_name(disc, &WITHDRAWAL_NAME) {
        return Some(Withdrawal::SIZE);
    }
    if matches_name(disc, &WITHDRAWAL_COUNTER_NAME) {
        return Some(WithdrawalCounter::SIZE);
    }
    if matches_name(disc, &ALLOWLIST_ENTRY_NAME) {
        return Some(AllowlistEntry::SIZE);
    }
    if matches_name(disc, &REDELEGATION_RECORD_NAME) {
        return Some(RedelegationRecord::SIZE);
    }
    if matches_name(disc, &OBSERVATION_NAME) {
        return Some(Observation::SIZE);
    }
    if matches_name(disc, &OBSERVER_LOOKUP_NAME) {
        return Some(ObserverLookup::SIZE);
    }
    if matches_name(disc, &EPOCH_NAME) {
        return Some(Epoch::SIZE);
    }
    None
}

/// An account whose discriminator is that of no imported type is never imported.
pub proof fn foreign_type_is_not_importable(disc: Seq<u8>)
    requires
        disc != discriminator_of(GATEWAY_NAME@),
        disc != discriminator_of(DELEGATION_NAME@),
        disc != discriminator_of(WITHDRAWAL_NAME@),
        disc != discriminator_of(WITHDRAWAL_COUNTER_NAME@),
        disc != discriminator_of(ALLOWLIST_ENTRY_NAME@),
        disc != discriminator_of(REDELEGATION_RECORD_NAME@),
        disc != discriminator_of(OBSERVATION_NAME@),
        disc != discriminator_of(OBSERVER_LOOKUP_NAME@),
        disc != discriminator_of(EPOCH_NAME@),
    ensures
        importable_size(disc) is None,
{
}

/// The accounts of `import_account_handler`.
#[derive(Clone, Debug)]
pub struct ImportAccount {
    pub settings: GatewaySettings,
    pub authority: Pubkey,
    /// The account to be written.
    pub account: Pubkey,
    /// How many bytes it holds; none if it is to be opened.
    pub account_len: usize,
    /// Whether it belongs to this program.
    pub account_owned: bool,
    pub program_id: Pubkey,
}

/// What is to be written.
#[derive(Clone, Debug)]
pub struct ImportedAccount {
    /// The data of the account.
    pub data: Vec<u8>,
    /// Whether the account is to be opened first.
    pub open: bool,
    /// The bump seed of its address.
    pub bump: u8,
}

/// Why an account cannot be imported, if so. `derived` is the address that the
/// seeds give, and `size` that of the type of account.
pub open spec fn import_refusal(
    ctx: ImportAccount,
    data: Seq<u8>,
    now: i64,
    derived: Option<(Pubkey, u8)>,
    size: Option<usize>,
) -> Option<Refusal> {
    if !ctx.settings.migration_active {
        Some(Refusal::Gar(GarError::MigrationInactive))
    } else if ctx.settings.migration_authority != ctx.authority {
        Some(Refusal::Gar(GarError::Unauthorized))
    } else if now >= MIGRATION_DEADLINE {
        Some(Refusal::Gar(GarError::MigrationExpired))
    } else {
        match derived {
            None => Some(Refusal::NoProgramAddress),
            Some((key, bump)) => if key != ctx.account {
                Some(Refusal::Gar(GarError::InvalidPda))
            } else if data.len() < 8 || size is None || data.len() > size->Some_0 {
                Some(Refusal::Gar(GarError::InvalidAccountData))
            } else if ctx.account_len != 0 && (!ctx.account_owned || ctx.account_len != size->Some_0) {
                Some(Refusal::Gar(GarError::InvalidAccountData))
            } else {
                None
            },
        }
    }
}

/// The data filled up with zeros to a given size.
pub open spec fn padded(data: Seq<u8>, size: int) -> Seq<u8> {
    data + Seq::new((size - data.len()) as nat, |i: int| 0u8)
}

/// Imports an account, with the address that the seeds give and the size of the
/// type of account given. An account that was imported before is overwritten.
pub fn import_account_at(
    ctx: ImportAccount,
    data: Vec<u8>,
    now: i64,
    derived: Option<(Pubkey, u8)>,
    size: Option<usize>,
) -> (r: Result<ImportedAccount, Refusal>)
    ensures
        match r {
            Err(e) => import_refusal(ctx, data@, now, derived, size) == Some(e),
            Ok(imported) => {
                &&& import_refusal(ctx, data@, now, derived, size) is None
                &&& imported.data@ == padded(data@, size->Some_0 as int)
                &&& imported.open == (ctx.account_len == 0)
                &&& derived matches Some((key, bump)) && imported.bump == bump
            },
        },
{
    if !ctx.settings.migration_active {
        return Err(Refusal::Gar(GarError::MigrationInactive));
    }
    if ctx.settings.migration_authority != ctx.authority {
        return Err(Refusal::Gar(GarError::Unauthorized));
    }
    if now >= MIGRATION_DEADLINE {
        return Err(Refusal::Gar(GarError::MigrationExpired));
    }
    let (key, bump) = match derived {
        None => {
            return Err(Refusal::NoProgramAddress);
        },
        Some((key, bump)) => (key, bump),
    };
    if key != ctx.account {
        return Err(Refusal::Gar(GarError::InvalidPda));
    }
    if data.len() < 8 {
        return Err(Refusal::Gar(GarError::InvalidAccountData));
    }
    let expected_size: usize = match size {
        None => {
            return Err(Refusal::Gar(GarError::InvalidAccountData));
        },
        Some(size) => size,
    };
    if data.len() > expected_size {
        return Err(Refusal::Gar(GarError::InvalidAccountData));
    }
    if ctx.account_len != 0 {
        if !ctx.account_owned {
            return Err(Refusal::Gar(GarError::InvalidAccountData));
        }
        if ctx.account_len != expected_size {
            return Err(Refusal::Gar(GarError::InvalidAccountData));
        }
    }
    Ok(ImportedAccount { data: pad(data, expected_size), open: ctx.account_len == 0, bump })
}

fn pad(data: Vec<u8>, size: usize) -> (r: Vec<u8>)
    requires
        data@.len() <= size,
    ensures
        r@ == padded(data@, size as int),
{
    let mut r = data;
    while r.len() < size
        invariant
            data@.len() <= r@.len() <= size,
            r@ == padded(data@, r@.len() as int),
        decreases size - r@.len(),
    {
        r.push(0u8);
        assert(r@ =~= padded(data@, r@.len() as int));
    }
    r
}

/// The size of the type of account that the data starts with.
pub open spec fn size_of_data(data: Seq<u8>) -> Option<usize> {
    if data.len() < 8 {
        None
    } else {
        importable_size(data.take(8))
    }
}

/// Imports an account: `import_account_at` with the derived address and the size of
/// the type of account.
pub fn import_account_handler(ctx: ImportAccount, seeds: Vec<Vec<u8>>, data: Vec<u8>, now: i64) -> (r: Result<
    ImportedAccount,
    Refusal,
>)
    ensures
        ({
            let derived = derived_address(seeds_view(seeds@), ctx.program_id);
            let size = size_of_data(data@);
            match r {
                Err(e) => import_refusal(ctx, data@, now, derived, size) == Some(e),
                Ok(imported) => {
                    &&& import_refusal(ctx, data@, now, derived, size) is None
                    &&& imported.data@ == padded(data@, size->Some_0 as int)
                    &&& imported.open == (ctx.account_len == 0)
                    &&& derived matches Some((key, bump)) && imported.bump == bump
                },
            }
        }),
{
    let derived = find_program_address(&seeds, &ctx.program_id);
    proof {
        match derived {
            Some((key, bump)) => lemma_address_of(key),
            None => {},
        }
    }
    let size: Option<usize> = if data.len() < 8 {
        None
    } else {
        let disc: [u8; 8] = [data[0], data[1], data[2], data[3], data[4], data[5], data[6], data[7]];
        assert(disc@ =~= data@.take(8));
        known_discriminator(&disc)
    };
    import_account_at(ctx, data, now, derived, size)
}

/// The accounts of `import_registry_entry_handler`.
#[derive(Clone, Debug)]
pub struct ImportRegistryEntry {
    pub settings: GatewaySettings,
    pub authority: Pubkey,
    pub registry: GatewayRegistry,
}

/// Why a registry entry cannot be imported, if so.
pub open spec fn import_entry_refusal(ctx: ImportRegistryEntry, now: i64) -> Option<GarError> {
    if !ctx.settings.migration_active {
        Some(GarError::MigrationInactive)
    } else if ctx.settings.migration_authority != ctx.authority {
        Some(GarError::Unauthorized)
    } else if now >= MIGRATION_DEADLINE {
        Some(GarError::MigrationExpired)
    } else if ctx.registry.count >= GatewayRegistry::MAX_GATEWAYS {
        Some(GarError::InvalidAccountData)
    } else {
        None
    }
}

/// The registry with one more slot in use, for a joined gateway with a weight.
pub open spec fn entry_imported(
    before: GatewayRegistry,
    after: GatewayRegistry,
    address: Pubkey,
    weight: u64,
    start_timestamp: i64,
) -> bool {
    let at = before.count as int;
    let slot = after.gateways@[at];
    &&& after == (GatewayRegistry { count: (before.count + 1) as u32, gateways: after.gateways, ..before })
    &&& after.gateways@.len() == before.gateways@.len()
    &&& slot.composite_weight == weight
    &&& (GatewaySlot { composite_weight: 0, ..slot }).is_fresh(
        address,
        start_timestamp,
        GatewaySlot::STATUS_JOINED,
    )
    &&& forall|i: int| 0 <= i < before.gateways@.len() && i != at ==> after.gateways@[i] == before.gateways@[i]
}

/// Gives an imported gateway the next slot of the registry.
pub fn import_registry_entry_handler(
    ctx: ImportRegistryEntry,
    entry_pubkey: Pubkey,
    weight: u64,
    start_timestamp: i64,
    now: i64,
) -> (r: Result<GatewayRegistry, GarError>)
    requires
        ctx.registry.wf(),
    ensures
        match r {
            Err(e) => import_entry_refusal(ctx, now) == Some(e),
            Ok(registry) => {
                &&& import_entry_refusal(ctx, now) is None
                &&& entry_imported(ctx.registry, registry, entry_pubkey, weight, start_timestamp)
            },
        },
{
    if !ctx.settings.migration_active {
        return Err(GarError::MigrationInactive);
    }
    if ctx.settings.migration_authority != ctx.authority {
        return Err(GarError::Unauthorized);
    }
    if now >= MIGRATION_DEADLINE {
        return Err(GarError::MigrationExpired);
    }
    let mut registry = ctx.registry;
    if registry.count as usize >= GatewayRegistry::MAX_GATEWAYS {
        return Err(GarError::InvalidAccountData);
    }
    let idx: usize = registry.count as usize;
    let mut slot = GatewaySlot::fresh(entry_pubkey, start_timestamp, GatewaySlot::STATUS_JOINED);
    slot.composite_weight = weight;
    registry.gateways.set(idx, slot);
    registry.count = registry.count + 1;
    Ok(registry)
}

/// An account that is passed as the registry.
#[derive(Clone, Debug)]
pub struct RegistryAccount {
    pub key: Pubkey,
    /// Whether the account belongs to this program.
    pub owned: bool,
    /// The raw data of the account.
    pub data: Vec<u8>,
}

/// The accounts of `finalize_migration_handler`.
#[derive(Clone, Debug)]
pub struct FinalizeMigration {
    pub settings: GatewaySettings,
    pub authority: Pubkey,
    /// The registry, if it was passed.
    pub registry: Option<RegistryAccount>,
    pub program_id: Pubkey,
}

/// Why the migration cannot be ended, if so. `expected` is the address of the
/// registry.
pub open spec fn finalize_migration_refusal(ctx: FinalizeMigration, expected: Option<(Pubkey, u8)>) -> Option<Refusal> {
    if !ctx.settings.migration_active {
        Some(Refusal::Gar(GarError::MigrationAlreadyFinalized))
    } else if ctx.settings.authority != ctx.authority {
        Some(Refusal::Gar(GarError::Unauthorized))
    } else if ctx.registry is Some && expected is None {
        Some(Refusal::NoProgramAddress)
    } else {
        None
    }
}

/// The number of gateways in the registry that was passed; zero if none was, or
/// not the right one.
pub open spec fn reported_count(ctx: FinalizeMigration, expected: Option<(Pubkey, u8)>) -> int {
    match (ctx.registry, expected) {
        (Some(account), Some((key, bump))) => if account.key == key && account.owned && account.data@.len() >= 44 {
            le_u32(account.data@, 40)
        } else {
            0
        },
        _ => 0,
    }
}

/// Ends the migration for good, with the address of the registry given.
pub fn finalize_migration_at(ctx: FinalizeMigration, clock: Clock, expected: Option<(Pubkey, u8)>) -> (r: Result<
    (GatewaySettings, GarMigrationFinalizedEvent),
    Refusal,
>)
    ensures
        match r {
            Err(e) => finalize_migration_refusal(ctx, expected) == Some(e),
            Ok((settings, event)) => {
                &&& finalize_migration_refusal(ctx, expected) is None
                &&& settings == (GatewaySettings { migration_active: false, ..ctx.settings })
                &&& event == (GarMigrationFinalizedEvent {
                    admin: ctx.authority,
                    gateway_count: reported_count(ctx, expected) as u32,
                    slot: clock.slot,
                    timestamp: clock.unix_timestamp,
                })
            },
        },
{
    if !ctx.settings.migration_active {
        return Err(Refusal::Gar(GarError::MigrationAlreadyFinalized));
    }
    if ctx.settings.authority != ctx.authority {
        return Err(Refusal::Gar(GarError::Unauthorized));
    }
    let mut settings = ctx.settings;
    settings.migration_active = false;
    let mut gateway_count: u32 = 0;
    if let Some(account) = &ctx.registry {
        match expected {
            None => {
                return Err(Refusal::NoProgramAddress);
            },
            Some((key, _bump)) => {
                if account.key == key && account.owned && account.data.len() >= 44 {
                    gateway_count = account.data[40] as u32 + 0x100 * (account.data[41] as u32) + 0x1_0000 * (
                    account.data[42] as u32) + 0x100_0000 * (account.data[43] as u32);
                }
            },
        }
    }
    let event = GarMigrationFinalizedEvent {
        admin: ctx.authority,
        gateway_count,
        slot: clock.slot,
        timestamp: clock.unix_timestamp,
    };
    Ok((settings, event))
}

/// Ends the migration for good: `finalize_migration_at` with the derived address.
pub fn finalize_migration_handler(ctx: FinalizeMigration, clock: Clock) -> (r: Result<
    (GatewaySettings, GarMigrationFinalizedEvent),
    Refusal,
>)
    ensures
        ({
            let expected = registry_pda(ctx.program_id);
            match r {
                Err(e) => finalize_migration_refusal(ctx, expected) == Some(e),
                Ok((settings, event)) => {
                    &&& finalize_migration_refusal(ctx, expected) is None
                    &&& settings == (GatewaySettings { migration_active: false, ..ctx.settings })
                    &&& event == (GarMigrationFinalizedEvent {
                        admin: ctx.authority,
                        gateway_count: reported_count(ctx, expected) as u32,
                        slot: clock.slot,
                        timestamp: clock.unix_timestamp,
                    })
                },
            }
        }),
{
    let expected = registry_address(&ctx.program_id);
    finalize_migration_at(ctx, clock, expected)
}

/// Once the migration has ended, nothing is imported any more and it cannot be ended
/// again.
pub proof fn finalized_migration_stays_finalized(
    settings: GatewaySettings,
    import: ImportAccount,
    entry: ImportRegistryEntry,
    again: FinalizeMigration,
    data: Seq<u8>,
    now: i64,
    derived: Option<(Pubkey, u8)>,
    size: Option<usize>,
)
    requires
        !settings.migration_active,
        import.settings == settings,
        entry.settings == settings,
        again.settings == settings,
    ensures
        import_refusal(import, data, now, derived, size) == Some(Refusal::Gar(GarError::MigrationInactive)),
        import_entry_refusal(entry, now) == Some(GarError::MigrationInactive),
        finalize_migration_refusal(again, derived) == Some(Refusal::Gar(GarError::MigrationAlreadyFinalized)),
{
}

/// The size of the gateway settings with their schema version.
pub const SETTINGS_ACCOUNT_SIZE: usize = GatewaySettings::SIZE + SCHEMA_VERSION_SIZE;

/// The size of the gateway settings before they named the name service's program,
/// counted the supply and carried a version.
pub const OLD_SETTINGS_ACCOUNT_SIZE: usize = SETTINGS_ACCOUNT_SIZE - 32 - 24 - SCHEMA_VERSION_SIZE;

/// Why settings cannot be brought to the current layout, if so.
pub open spec fn set_arns_refusal(data: Seq<u8>, authority: Pubkey) -> Option<GarError> {
    if data.len() < 40 {
        Some(GarError::InvalidAccountData)
    } else if data.subrange(8, 40) != authority@ {
        Some(GarError::Unauthorized)
    } else if data.len() != SETTINGS_ACCOUNT_SIZE && data.len() != OLD_SETTINGS_ACCOUNT_SIZE {
        Some(GarError::InvalidAccountData)
    } else {
        None
    }
}

/// The settings in the current layout. What is there already stays; the program id
/// and the bump seed follow, and the rest is zero.
pub open spec fn with_arns_program_id(data: Seq<u8>, arns_program_id: Pubkey) -> Seq<u8> {
    if data.len() == SETTINGS_ACCOUNT_SIZE {
        data
    } else {
        data.drop_last() + arns_program_id@ + Seq::new(24, |i: int| 0u8) + seq![data.last()] + Seq::new(
            3,
            |i: int| 0u8,
        )
    }
}

fn stored_authority_is(data: &Vec<u8>, authority: &Pubkey) -> (r: bool)
    requires
        data@.len() >= 40,
    ensures
        r == (data@.subrange(8, 40) == authority@),
{
    let mut stored: [u8; 32] = [0u8; 32];
    let mut i: usize = 0;
    while i < 32
        invariant
            i <= 32,
            data@.len() >= 40,
            forall|j: int| 0 <= j < i ==> stored@[j] == data@[8 + j],
        decreases 32 - i,
    {
        stored[i] = data[8 + i];
        i = i + 1;
    }
    assert(stored@ =~= data@.subrange(8, 40));
    same_bytes(&stored, &authority.bytes)
}

/// Brings settings that were written before they named the name service's program
/// to the current layout. Settings that do already are left alone.
pub fn migrate_settings_set_arns_program_id_handler(
    data: Vec<u8>,
    authority: Pubkey,
    arns_program_id: Pubkey,
) -> (r: Result<Vec<u8>, GarError>)
    ensures
        match r {
            Err(e) => set_arns_refusal(data@, authority) == Some(e),
            Ok(after) => {
                &&& set_arns_refusal(data@, authority) is None
                &&& after@ == with_arns_program_id(data@, arns_program_id)
                &&& after@.len() == SETTINGS_ACCOUNT_SIZE
            },
        },
{
    if data.len() < 40 {
        return Err(GarError::InvalidAccountData);
    }
    if !stored_authority_is(&data, &authority) {
        return Err(GarError::Unauthorized);
    }
    if data.len() == SETTINGS_ACCOUNT_SIZE {
        return Ok(data);
    }
    if data.len() != OLD_SETTINGS_ACCOUNT_SIZE {
        return Err(GarError::InvalidAccountData);
    }
    let bump_byte: u8 = data[OLD_SETTINGS_ACCOUNT_SIZE - 1];
    let mut after: Vec<u8> = pad(data, SETTINGS_ACCOUNT_SIZE);
    let ghost grown = after@;
    let mut i: usize = 0;
    while i < 32
        invariant
            i <= 32,
            after@.len() == SETTINGS_ACCOUNT_SIZE,
            grown.len() == SETTINGS_ACCOUNT_SIZE,
            forall|j: int| 0 <= j < OLD_SETTINGS_ACCOUNT_SIZE - 1 ==> after@[j] == grown[j],
            forall|j: int| 0 <= j < i ==> after@[OLD_SETTINGS_ACCOUNT_SIZE - 1 + j] == arns_program_id@[j],
            forall|j: int| OLD_SETTINGS_ACCOUNT_SIZE - 1 + i <= j < after@.len() ==> after@[j] == grown[j],
        decreases 32 - i,
    {
        after.set(OLD_SETTINGS_ACCOUNT_SIZE - 1 + i, arns_program_id.bytes[i]);
        i = i + 1;
    }
    after.set(SETTINGS_ACCOUNT_SIZE - 1 - SCHEMA_VERSION_SIZE, bump_byte);
    proof {
        let target = with_arns_program_id(data@, arns_program_id);
        assert(target.len() == SETTINGS_ACCOUNT_SIZE);
        assert forall|j: int| 0 <= j < SETTINGS_ACCOUNT_SIZE implies after@[j] == target[j] by {
            let start: int = OLD_SETTINGS_ACCOUNT_SIZE - 1;
            let head = data@.drop_last() + arns_program_id@;
            let body = head + Seq::new(24, |i: int| 0u8);
            assert(start == 221 && head.len() == 253 && body.len() == 277);
            assert(target =~= (body + seq![data@.last()]) + Seq::new(3, |i: int| 0u8));
            if j < start {
                assert(target[j] == data@[j]);
                assert(grown[j] == data@[j]);
            } else if j < start + 32 {
                assert(after@[start + (j - start)] == arns_program_id@[j - start]);
                assert(target[j] == head[j]);
            } else if j == 277 {
                assert(target[j] == data@.last());
            } else {
                assert(grown[j] == 0);
                assert(target[j] == 0);
            }
        }
        assert(after@ =~= target);
    }
    Ok(after)
}

/// Running the backfill again changes nothing.
pub proof fn arns_backfill_is_idempotent(data: Seq<u8>, authority: Pubkey, first: Pubkey, second: Pubkey)
    requires
        set_arns_refusal(data, authority) is None,
    ensures
        ({
            let once = with_arns_program_id(data, first);
            &&& set_arns_refusal(once, authority) is None
            &&& with_arns_program_id(once, second) == once
        }),
{
    let once = with_arns_program_id(data, first);
    assert(once.len() == SETTINGS_ACCOUNT_SIZE);
    assert(once.subrange(8, 40) =~= data.subrange(8, 40));
}

/// The accounts of `migrate_settings_supply_counters_handler`.
#[derive(Clone, Copy, Debug)]
pub struct MigrateSettingsSupplyCounters {
    pub settings: GatewaySettings,
    pub authority: Pubkey,
}

/// Why the supply counters cannot be set, if so.
pub open spec fn supply_refusal(ctx: MigrateSettingsSupplyCounters) -> Option<GarError> {
    if ctx.settings.authority != ctx.authority {
        Some(GarError::Unauthorized)
    } else if !ctx.settings.migration_active {
        Some(GarError::MigrationInactive)
    } else {
        None
    }
}

/// Sets the supply counters to what the imported accounts come to.
pub fn migrate_settings_supply_counters_handler(
    ctx: MigrateSettingsSupplyCounters,
    total_staked: u64,
    total_delegated: u64,
    total_withdrawn: u64,
) -> (r: Result<GatewaySettings, GarError>)
    ensures
        match r {
            Err(e) => supply_refusal(ctx) == Some(e),
            Ok(settings) => {
                &&& supply_refusal(ctx) is None
                &&& settings == (GatewaySettings {
                    total_staked,
                    total_delegated,
                    total_withdrawn,
                    ..ctx.settings
                })
            },
        },
{
    if ctx.settings.authority != ctx.authority {
        return Err(GarError::Unauthorized);
    }
    if !ctx.settings.migration_active {
        return Err(GarError::MigrationInactive);
    }
    let mut settings = ctx.settings;
    settings.total_staked = total_staked;
    settings.total_delegated = total_delegated;
    settings.total_withdrawn = total_withdrawn;
    Ok(settings)
}

/// An imported entry takes no place away from a gateway that has one.
pub proof fn importing_entry_keeps_places(
    before: GatewayRegistry,
    after: GatewayRegistry,
    address: Pubkey,
    weight: u64,
    start_timestamp: i64,
    other: Gateway,
)
    requires
        before.wf(),
        before.count < GatewayRegistry::MAX_GATEWAYS,
        entry_imported(before, after, address, weight, start_timestamp),
        registered(before, other),
    ensures
        after.wf(),
        registered(after, other),
        after.gateways@[before.count as int].address == address,
{
}

/// The bytes spell a text.
pub open spec fn spells(bytes: Seq<u8>, text: Seq<char>) -> bool {
    &&& bytes.len() == text.len()
    &&& forall|i: int| 0 <= i < bytes.len() ==> #[trigger] bytes[i] as int == text[i] as int
}

/// An account type is known by the first eight bytes of the digest of its name, and each
/// has its size. The two kinds of settings are not among them.
pub proof fn types_are_known_by_the_digest_of_their_names(
    disc: [u8; 8],
    gateway: Seq<u8>,
    delegation: Seq<u8>,
    withdrawal: Seq<u8>,
    counter: Seq<u8>,
    allowlist: Seq<u8>,
    record: Seq<u8>,
    observation: Seq<u8>,
    lookup: Seq<u8>,
    epoch: Seq<u8>,
    r: Option<usize>,
)
    requires
        spells(gateway, "account:Gateway"@),
        spells(delegation, "account:Delegation"@),
        spells(withdrawal, "account:Withdrawal"@),
        spells(counter, "account:WithdrawalCounter"@),
        spells(allowlist, "account:AllowlistEntry"@),
        spells(record, "account:RedelegationRecord"@),
        spells(observation, "account:Observation"@),
        spells(lookup, "account:ObserverLookup"@),
        spells(epoch, "account:Epoch"@),
        call_ensures(known_discriminator, (&disc,), r),
    ensures
        ({
            if disc@ == sha256(gateway).take(8) {
                r == Some(949usize)
            } else if disc@ == sha256(delegation).take(8) {
                r == Some(105usize)
            } else if disc@ == sha256(withdrawal).take(8) {
                r == Some(108usize)
            } else if disc@ == sha256(counter).take(8) {
                r == Some(49usize)
            } else if disc@ == sha256(allowlist).take(8) {
                r == Some(81usize)
            } else if disc@ == sha256(record).take(8) {
                r == Some(61usize)
            } else if disc@ == sha256(observation).take(8) {
                r == Some(466usize)
            } else if disc@ == sha256(lookup).take(8) {
                r == Some(41usize)
            } else if disc@ == sha256(epoch).take(8) {
                r == Some(9400usize)
            } else {
                r is None
            }
        }),
{
    reveal_strlit("account:Gateway");
    reveal_strlit("account:Delegation");
    reveal_strlit("account:Withdrawal");
    reveal_strlit("account:WithdrawalCounter");
    reveal_strlit("account:AllowlistEntry");
    reveal_strlit("account:RedelegationRecord");
    reveal_strlit("account:Observation");
    reveal_strlit("account:ObserverLookup");
    reveal_strlit("account:Epoch");
    assert(gateway =~= GATEWAY_NAME@);
    assert(delegation =~= DELEGATION_NAME@);
    assert(withdrawal =~= WITHDRAWAL_NAME@);
    assert(counter =~= WITHDRAWAL_COUNTER_NAME@);
    assert(allowlist =~= ALLOWLIST_ENTRY_NAME@);
    assert(record =~= REDELEGATION_RECORD_NAME@);
    assert(observation =~= OBSERVATION_NAME@);
    assert(lookup =~= OBSERVER_LOOKUP_NAME@);
    assert(epoch =~= EPOCH_NAME@);
}

/// While imports are on and the deadline has not passed, the migration authority writes any
/// account of a known type at its own address: what is given, filled up with zeros. An
/// account that exists must belong to the program and have the size of the type.
pub proof fn import_writes_the_data_in_full_size(
    ctx: ImportAccount,
    data: Vec<u8>,
    now: i64,
    derived: Option<(Pubkey, u8)>,
    size: Option<usize>,
    r: Result<ImportedAccount, Refusal>,
)
    requires
        call_ensures(import_account_at, (ctx, data, now, derived, size), r),
    ensures
        r is Ok <==> {
            &&& ctx.settings.migration_active
            &&& ctx.settings.migration_authority == ctx.authority
            &&& now < 4_490_553_669
            &&& derived is Some && derived->Some_0.0 == ctx.account
            &&& size is Some && 8 <= data@.len() <= size->Some_0
            &&& ctx.account_len == 0 || ctx.account_owned && ctx.account_len == size->Some_0
        },
        r matches Err(e) ==> match e {
            Refusal::Gar(GarError::MigrationInactive) => !ctx.settings.migration_active,
            Refusal::Gar(GarError::Unauthorized) => ctx.settings.migration_authority != ctx.authority,
            Refusal::Gar(GarError::MigrationExpired) => now >= 4_490_553_669,
            Refusal::NoProgramAddress => derived is None,
            Refusal::Gar(GarError::InvalidPda) => derived is Some && derived->Some_0.0 != ctx.account,
            Refusal::Gar(GarError::InvalidAccountData) => data@.len() < 8 || size is None || data@.len() > size->Some_0
                || ctx.account_len != 0 && (!ctx.account_owned || ctx.account_len != size->Some_0),
            _ => false,
        },
        r matches Ok(imported) ==> {
            &&& imported.data@.len() == size->Some_0
            &&& forall|i: int| 0 <= i < data@.len() ==> #[trigger] imported.data@[i] == data@[i]
            &&& forall|i: int| data@.len() <= i < size->Some_0 ==> #[trigger] imported.data@[i] == 0
            &&& imported.open <==> ctx.account_len == 0
            &&& imported.bump == derived->Some_0.1
        },
{
}

/// An import goes by the address that the seeds give, and by the size of the type that the
/// first eight bytes name.
pub proof fn import_goes_by_seeds_and_type(
    ctx: ImportAccount,
    seeds: Vec<Vec<u8>>,
    data: Vec<u8>,
    now: i64,
    disc: [u8; 8],
    size: Option<usize>,
    at: Result<ImportedAccount, Refusal>,
    r: Result<ImportedAccount, Refusal>,
)
    requires
        data@.len() >= 8 ==> disc@ == data@.take(8) && call_ensures(known_discriminator, (&disc,), size),
        data@.len() < 8 ==> size is None,
        call_ensures(
            import_account_at,
            (ctx, data, now, derived_address(seeds_view(seeds@), ctx.program_id), size),
            at,
        ),
        call_ensures(import_account_handler, (ctx, seeds, data, now), r),
    ensures
        match r {
            Err(e) => at == Err::<ImportedAccount, Refusal>(e),
            Ok(imported) => at matches Ok(other) && imported.data@ == other.data@ && imported.open == other.open
                && imported.bump == other.bump,
        },
{
}

/// An imported entry takes the first free slot, as that of a joined gateway with the weight
/// and the time given; every other slot stays.
pub proof fn imported_entry_takes_the_next_slot(
    ctx: ImportRegistryEntry,
    entry_pubkey: Pubkey,
    weight: u64,
    start_timestamp: i64,
    now: i64,
    r: Result<GatewayRegistry, GarError>,
)
    requires
        ctx.registry.wf(),
        call_ensures(import_registry_entry_handler, (ctx, entry_pubkey, weight, start_timestamp, now), r),
    ensures
        r is Ok <==> ctx.settings.migration_active && ctx.settings.migration_authority == ctx.authority && now
            < 4_490_553_669 && ctx.registry.count < 3000,
        r matches Err(e) ==> match e {
            GarError::MigrationInactive => !ctx.settings.migration_active,
            GarError::Unauthorized => ctx.settings.migration_authority != ctx.authority,
            GarError::MigrationExpired => now >= 4_490_553_669,
            GarError::InvalidAccountData => ctx.registry.count >= 3000,
            _ => false,
        },
        r matches Ok(after) ==> {
            let at = ctx.registry.count as int;
            let slot = after.gateways@[at];
            &&& after.count == at + 1
            &&& after.authority == ctx.registry.authority
            &&& slot.address == entry_pubkey
            &&& slot.composite_weight == weight
            &&& slot.start_timestamp == start_timestamp
            &&& slot.status == 0
            &&& slot.delegated_at_tally == 0
            &&& after.gateways@.len() == ctx.registry.gateways@.len()
            &&& forall|i: int| 0 <= i < 3000 && i != at ==> #[trigger] after.gateways@[i] == ctx.registry.gateways@[i]
        },
{
}

/// The authority ends the imports once. The report counts the gateways in the registry that
/// was passed, if it is the right one.
pub proof fn authority_ends_the_imports_once(
    ctx: FinalizeMigration,
    clock: Clock,
    expected: Option<(Pubkey, u8)>,
    r: Result<(GatewaySettings, GarMigrationFinalizedEvent), Refusal>,
)
    requires
        call_ensures(finalize_migration_at, (ctx, clock, expected), r),
    ensures
        r is Ok <==> ctx.settings.migration_active && ctx.settings.authority == ctx.authority && (ctx.registry is None
            || expected is Some),
        r matches Err(e) ==> match e {
            Refusal::Gar(GarError::MigrationAlreadyFinalized) => !ctx.settings.migration_active,
            Refusal::Gar(GarError::Unauthorized) => ctx.settings.authority != ctx.authority,
            Refusal::NoProgramAddress => expected is None,
            _ => false,
        },
        r matches Ok((settings, event)) ==> {
            &&& !settings.migration_active
            &&& settings == (GatewaySettings { migration_active: false, ..ctx.settings })
            &&& event.admin == ctx.authority
            &&& event.slot == clock.slot
            &&& event.timestamp == clock.unix_timestamp
            &&& ctx.registry is None ==> event.gateway_count == 0
            &&& ctx.registry matches Some(account) ==> {
                let data = account.data@;
                let right = account.key == expected->Some_0.0 && account.owned && data.len() >= 44;
                &&& right ==> event.gateway_count == data[40] + 256 * data[41] + 65_536 * data[42] + 16_777_216
                    * data[43]
                &&& !right ==> event.gateway_count == 0
            }
        },
{
}

/// The right registry is the one at the derived address.
pub proof fn imports_end_by_the_registrys_address(
    ctx: FinalizeMigration,
    clock: Clock,
    at: Result<(GatewaySettings, GarMigrationFinalizedEvent), Refusal>,
    r: Result<(GatewaySettings, GarMigrationFinalizedEvent), Refusal>,
)
    requires
        call_ensures(finalize_migration_at, (ctx, clock, registry_pda(ctx.program_id)), at),
        call_ensures(finalize_migration_handler, (ctx, clock), r),
    ensures
        at == r,
{
}

/// Once the imports have ended nothing is imported, and they do not end again.
pub proof fn nothing_is_imported_after_the_end(
    ctx: FinalizeMigration,
    clock: Clock,
    settings: GatewaySettings,
    event: GarMigrationFinalizedEvent,
    import: ImportAccount,
    seeds: Vec<Vec<u8>>,
    data: Vec<u8>,
    now: i64,
    imported: Result<ImportedAccount, Refusal>,
    entry: ImportRegistryEntry,
    key: Pubkey,
    weight: u64,
    start: i64,
    entered: Result<GatewayRegistry, GarError>,
    again: FinalizeMigration,
    ended: Result<(GatewaySettings, GarMigrationFinalizedEvent), Refusal>,
)
    requires
        call_ensures(finalize_migration_handler, (ctx, clock), Ok::<_, Refusal>((settings, event))),
        import.settings == settings,
        call_ensures(import_account_handler, (import, seeds, data, now), imported),
        entry.settings == settings,
        entry.registry.wf(),
        call_ensures(import_registry_entry_handler, (entry, key, weight, start, now), entered),
        again.settings == settings,
        call_ensures(finalize_migration_handler, (again, clock), ended),
    ensures
        imported == Err::<ImportedAccount, Refusal>(Refusal::Gar(GarError::MigrationInactive)),
        entered == Err::<GatewayRegistry, GarError>(GarError::MigrationInactive),
        ended is Err,
{
}

/// Settings of the old layout keep all their bytes but the last, which is the bump seed and
/// moves behind the program id and the counters; the program id is the one given, and the
/// rest is zero. Settings of the current layout stay. Only the authority in the settings may
/// ask for it.
pub proof fn old_settings_take_the_program_id(
    data: Vec<u8>,
    authority: Pubkey,
    arns_program_id: Pubkey,
    r: Result<Vec<u8>, GarError>,
)
    requires
        call_ensures(migrate_settings_set_arns_program_id_handler, (data, authority, arns_program_id), r),
    ensures
        r is Ok <==> (data@.len() == 281 || data@.len() == 222) && data@.subrange(8, 40) == authority@,
        r matches Err(e) ==> match e {
            GarError::Unauthorized => data@.len() >= 40 && data@.subrange(8, 40) != authority@,
            GarError::InvalidAccountData => data@.len() != 281 && data@.len() != 222,
            _ => false,
        },
        r matches Ok(after) ==> {
            &&& data@.len() == 281 ==> after@ == data@
            &&& data@.len() == 222 ==> {
                &&& after@.len() == 281
                &&& forall|i: int| 0 <= i < 221 ==> #[trigger] after@[i] == data@[i]
                &&& after@.subrange(221, 253) == arns_program_id@
                &&& forall|i: int| 253 <= i < 277 ==> #[trigger] after@[i] == 0
                &&& after@[277] == data@[221]
                &&& forall|i: int| 278 <= i < 281 ==> #[trigger] after@[i] == 0
            }
        },
{
    if r is Ok && data@.len() == 222 {
        assert(r->Ok_0@.subrange(221, 253) =~= arns_program_id@);
    }
}

/// The authority sets the three supply counters to what is given while imports are on.
pub proof fn supply_counters_are_set_as_given(
    ctx: MigrateSettingsSupplyCounters,
    staked: u64,
    delegated: u64,
    withdrawn: u64,
    r: Result<GatewaySettings, GarError>,
)
    requires
        call_ensures(migrate_settings_supply_counters_handler, (ctx, staked, delegated, withdrawn), r),
    ensures
        r is Ok <==> ctx.settings.authority == ctx.authority && ctx.settings.migration_active,
        r matches Err(e) ==> match e {
            GarError::Unauthorized => ctx.settings.authority != ctx.authority,
            GarError::MigrationInactive => !ctx.settings.migration_active,
            _ => false,
        },
        r matches Ok(s) ==> {
            &&& s.total_staked == staked
            &&& s.total_delegated == delegated
            &&& s.total_withdrawn == withdrawn
            &&& s == (GatewaySettings {
                total_staked: s.total_staked,
                total_delegated: s.total_delegated,
                total_withdrawn: s.total_withdrawn,
                ..ctx.settings
            })
        },
{
}

} // verus!
