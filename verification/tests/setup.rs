use ario_gar::addresses::{
    allowlist_address, delegation_address, gateway_address, name_registry_address, observer_lookup_address,
    registry_address, u64_to_le_bytes, withdrawal_address,
};
use ario_gar::error::GarError;
use ario_gar::instructions::effects::Refusal;
use ario_gar::instructions::epoch::Clock;
use ario_gar::instructions::initialize::{
    admin_repair_settings, admin_set_withdrawal_period, create_gateway_registry, initialize, initialize_epochs,
    lamports_needed, write_gateway_registry_header, AdminRepairSettings, AdminSetWithdrawalPeriod,
    CreateGatewayRegistry, InitializeEpochs, InitializeGar,
};
use ario_gar::migration::{
    finalize_migration_at, finalize_migration_handler, import_account_at, import_account_handler,
    import_registry_entry_handler, migrate_settings_set_arns_program_id_handler,
    migrate_settings_supply_counters_handler, FinalizeMigration, ImportAccount, ImportRegistryEntry,
    MigrateSettingsSupplyCounters, RegistryAccount,
};
use ario_gar::params::{InitializeEpochParams, InitializeParams};
use ario_gar::pubkey::Pubkey;
use ario_gar::schema_migration::{
    check_outdated, grow_account, migrate_allowlist_entry_version, migrate_delegation_version, migrate_epoch_settings_version,
    migrate_gateway_settings_version, migrate_gateway_version, migrate_observation_version,
    migrate_observer_lookup_version, migrate_redelegation_record_version, migrate_withdrawal_counter_version,
    migrate_withdrawal_version, write_account,
};
use ario_gar::state::constants::{gateway_settings_version, MIGRATION_DEADLINE};
use ario_gar::state::{
    AllowlistEntry, Delegation, EpochSettings, Gateway, GatewayRegistry, GatewaySettings, GatewaySettings2,
    GatewaySlot, GatewayStats, GatewayStatus, GatewayWeights, Observation, ObserverLookup, Protocol,
    RedelegationRecord, RegistryIndex, SchemaVersion, Withdrawal, WithdrawalCounter,
};

fn key(n: u8) -> Pubkey {
    Pubkey::new_from_array([n; 32])
}

fn program() -> Pubkey {
    key(200)
}

fn v(major: u8, minor: u8, patch: u8) -> SchemaVersion {
    SchemaVersion::new(major, minor, patch)
}

fn settings() -> GatewaySettings {
    let params = InitializeParams {
        authority: key(50),
        migration_authority: key(52),
        stake_token_account: key(53),
        protocol_token_account: key(54),
        arns_program_id: key(55),
    };
    let ctx = InitializeGar {
        mint: key(51),
        payer: key(60),
        upgrade_authority: Some(key(60)),
        settings_bump: 255,
    };
    initialize(ctx, params).unwrap()
}

fn epoch_params() -> InitializeEpochParams {
    InitializeEpochParams {
        authority: key(50),
        epoch_duration: 86_400,
        observer_count: 50,
        name_count: 2,
        min_observer_stake: 1,
        slash_rate: 2,
        tenure_weight_duration: 15_552_000,
        max_tenure_weight: 4,
    }
}

fn epochs() -> InitializeEpochs {
    InitializeEpochs { payer: key(60), upgrade_authority: Some(key(60)), epoch_settings_bump: 254 }
}

fn hash(data: &[u8]) -> [u8; 32] {
    anchor_lang::solana_program::hash::hash(data).to_bytes()
}

#[test]
fn settings_start_with_the_defaults() {
    let s = settings();
    assert_eq!((s.authority, s.mint, s.arns_program_id), (key(50), key(51), key(55)));
    assert_eq!((s.min_operator_stake, s.min_delegate_stake), (20_000_000_000, 10_000_000));
    assert_eq!((s.withdrawal_period, s.max_delegates_per_gateway), (2_592_000, 10_000));
    assert_eq!((s.total_staked, s.total_delegated, s.total_withdrawn), (0, 0, 0));
    assert!(s.migration_active);
    let params = InitializeParams {
        authority: key(1),
        migration_authority: key(1),
        stake_token_account: key(1),
        protocol_token_account: key(1),
        arns_program_id: key(1),
    };
    for authority in [None, Some(key(61))] {
        let ctx =
            InitializeGar { mint: key(51), payer: key(60), upgrade_authority: authority, settings_bump: 1 };
        assert_eq!(initialize(ctx, params).err(), Some(GarError::Unauthorized));
    }
}

#[test]
fn epoch_settings_start_with_the_defaults() {
    let s = initialize_epochs(epochs(), epoch_params(), 99).unwrap();
    assert_eq!((s.current_epoch_index, s.genesis_timestamp, s.enabled), (0, 99, false));
    assert_eq!((s.gateway_reward_ratio, s.observer_reward_ratio), (900_000, 100_000));
    assert_eq!((s.max_consecutive_failures, s.failed_gateway_slash_rate), (30, 1_000_000));
    assert_eq!((s.prescribed_observer_count, s.prescribed_name_count, s.bump), (50, 2, 254));
    let mut stranger = epochs();
    stranger.payer = key(61);
    assert_eq!(initialize_epochs(stranger, epoch_params(), 0).err(), Some(GarError::Unauthorized));
    let mut p = epoch_params();
    p.tenure_weight_duration = 0;
    assert_eq!(initialize_epochs(epochs(), p, 0).err(), Some(GarError::InvalidParameter));
    let mut p = epoch_params();
    p.max_tenure_weight = 0;
    assert_eq!(initialize_epochs(epochs(), p, 0).err(), Some(GarError::InvalidParameter));
}

#[test]
fn registry_is_opened_step_by_step() {
    let mut ctx = CreateGatewayRegistry { settings: settings(), registry_len: 0, authority: key(50) };
    let mut steps = 0;
    loop {
        let step = create_gateway_registry(ctx).unwrap();
        assert_eq!(step.open, steps == 0);
        steps += 1;
        ctx.registry_len = step.size;
        if step.complete {
            break;
        }
        assert_eq!(step.size, steps * 10_240);
    }
    assert_eq!((steps, ctx.registry_len), (17, 168_048));
    assert_eq!(create_gateway_registry(ctx).err(), Some(GarError::GatewayRegistryAlreadyExists));
    ctx.authority = key(1);
    assert_eq!(create_gateway_registry(ctx).err(), Some(GarError::Unauthorized));
    assert_eq!((lamports_needed(10, 4), lamports_needed(4, 10)), (6, 0));
}

#[test]
fn registry_header_names_type_and_authority() {
    let mut data = vec![1u8; 60];
    write_gateway_registry_header(&mut data, &key(50));
    assert_eq!(&data[..8], &hash(b"account:GatewayRegistry")[..8]);
    assert_eq!(&data[8..40], &[50u8; 32]);
    assert_eq!(&data[40..], &[1u8; 20]);
}

#[test]
fn settings_are_repaired_while_migrating() {
    let ctx = AdminRepairSettings { settings: settings(), authority: key(50) };
    let s = admin_repair_settings(ctx, key(1), key(2), key(3)).unwrap().settings;
    assert_eq!((s.mint, s.stake_token_account, s.protocol_token_account), (key(1), key(2), key(3)));
    let mut stranger = ctx;
    stranger.authority = key(1);
    assert_eq!(
        admin_repair_settings(stranger, key(1), key(2), key(3)).err(),
        Some(GarError::Unauthorized)
    );
    let mut over = ctx;
    over.settings.migration_active = false;
    assert_eq!(
        admin_repair_settings(over, key(1), key(2), key(3)).err(),
        Some(GarError::MigrationInactive)
    );
}

#[test]
fn withdrawal_period_is_changed() {
    let ctx = AdminSetWithdrawalPeriod { settings: settings(), authority: key(50) };
    let (after, event) = admin_set_withdrawal_period(ctx, 60, 7).unwrap();
    assert_eq!(after.settings.withdrawal_period, 60);
    assert_eq!((event.old_period_seconds, event.new_period_seconds), (2_592_000, 60));
    assert_eq!(admin_set_withdrawal_period(ctx, 59, 7).err(), Some(GarError::InvalidParameter));
    let mut stranger = ctx;
    stranger.authority = key(1);
    assert_eq!(admin_set_withdrawal_period(stranger, 60, 7).err(), Some(GarError::Unauthorized));
}

#[test]
fn addresses_are_those_of_the_runtime() {
    let find = |seeds: &[&[u8]], program: Pubkey| {
        let id = anchor_lang::prelude::Pubkey::new_from_array(program.bytes);
        let (address, bump) = anchor_lang::prelude::Pubkey::find_program_address(seeds, &id);
        Some((Pubkey::new_from_array(address.to_bytes()), bump))
    };
    let (a, b) = (key(1), key(2));
    assert_eq!(gateway_address(&a, &program()), find(&[b"gateway", &a.bytes], program()));
    assert_eq!(
        delegation_address(&a, &b, &program()),
        find(&[b"delegation", &a.bytes, &b.bytes], program())
    );
    assert_eq!(
        withdrawal_address(&a, 258, &program()),
        find(&[b"withdrawal", &a.bytes, &258u64.to_le_bytes()], program())
    );
    assert_eq!(allowlist_address(&a, &b, &program()), find(&[b"allowlist", &a.bytes, &b.bytes], program()));
    assert_eq!(observer_lookup_address(&a, &program()), find(&[b"observer_lookup", &a.bytes], program()));
    assert_eq!(registry_address(&program()), find(&[b"gateway_registry"], program()));
    assert_eq!(name_registry_address(&b), find(&[b"name_registry"], b));
    assert_eq!(u64_to_le_bytes(0x0807_0605_0403_0201), vec![1, 2, 3, 4, 5, 6, 7, 8]);
}

fn import(seeds: &Vec<Vec<u8>>) -> ImportAccount {
    let id = anchor_lang::prelude::Pubkey::new_from_array(program().bytes);
    let slices: Vec<&[u8]> = seeds.iter().map(|s| s.as_slice()).collect();
    let (address, _) = anchor_lang::prelude::Pubkey::find_program_address(&slices, &id);
    ImportAccount {
        settings: settings(),
        authority: key(52),
        account: Pubkey::new_from_array(address.to_bytes()),
        account_len: 0,
        account_owned: false,
        program_id: program(),
    }
}

fn counter_data() -> Vec<u8> {
    let mut data = hash(b"account:WithdrawalCounter")[..8].to_vec();
    data.push(77);
    data
}

#[test]
fn account_is_imported_and_padded() {
    let seeds = vec![b"withdrawal_counter".to_vec(), vec![3u8; 32]];
    let imported = import_account_handler(import(&seeds), seeds.clone(), counter_data(), 0).unwrap();
    assert_eq!((imported.data.len(), imported.open), (49, true));
    assert_eq!(&imported.data[..9], &counter_data()[..]);
    assert!(imported.data[9..].iter().all(|&b| b == 0));
    let mut again = import(&seeds);
    again.account_len = 49;
    again.account_owned = true;
    assert!(!import_account_handler(again, seeds, counter_data(), 0).unwrap().open);
}

#[test]
fn account_is_not_imported() {
    let seeds = vec![b"withdrawal_counter".to_vec(), vec![3u8; 32]];
    let gar = |e: GarError| Some(Refusal::Gar(e));
    let run = |ctx: ImportAccount, data: Vec<u8>, now: i64| {
        import_account_handler(ctx, seeds.clone(), data, now).err()
    };
    let mut ctx = import(&seeds);
    ctx.settings.migration_active = false;
    assert_eq!(run(ctx, counter_data(), 0), gar(GarError::MigrationInactive));
    let mut ctx = import(&seeds);
    ctx.authority = key(1);
    assert_eq!(run(ctx, counter_data(), 0), gar(GarError::Unauthorized));
    assert_eq!(run(import(&seeds), counter_data(), MIGRATION_DEADLINE), gar(GarError::MigrationExpired));
    let mut ctx = import(&seeds);
    ctx.account = key(1);
    assert_eq!(run(ctx, counter_data(), 0), gar(GarError::InvalidPda));
    assert_eq!(run(import(&seeds), vec![1u8; 7], 0), gar(GarError::InvalidAccountData));
    assert_eq!(run(import(&seeds), vec![1u8; 9], 0), gar(GarError::InvalidAccountData));
    let mut long = counter_data();
    long.resize(50, 0);
    assert_eq!(run(import(&seeds), long, 0), gar(GarError::InvalidAccountData));
    let mut ctx = import(&seeds);
    ctx.account_len = 49;
    assert_eq!(run(ctx.clone(), counter_data(), 0), gar(GarError::InvalidAccountData));
    ctx.account_owned = true;
    ctx.account_len = 48;
    assert_eq!(run(ctx, counter_data(), 0), gar(GarError::InvalidAccountData));
    assert_eq!(
        import_account_at(import(&seeds), counter_data(), 0, None, Some(49)).err(),
        Some(Refusal::NoProgramAddress)
    );
}

fn registry(count: u32) -> GatewayRegistry {
    GatewayRegistry {
        authority: key(50),
        count,
        _padding: [0u8; 4],
        gateways: vec![GatewaySlot::fresh(Pubkey::default(), 0, GatewaySlot::STATUS_JOINED); 3000],
    }
}

#[test]
fn registry_entry_is_imported() {
    let ctx = |count: u32| ImportRegistryEntry {
        settings: settings(),
        authority: key(52),
        registry: registry(count),
    };
    let r = import_registry_entry_handler(ctx(4), key(9), 12, 34, 0).unwrap();
    assert_eq!(r.count, 5);
    let slot = r.gateways[4];
    assert_eq!((slot.address, slot.composite_weight, slot.start_timestamp), (key(9), 12, 34));
    let run = |c: ImportRegistryEntry, now: i64| import_registry_entry_handler(c, key(9), 1, 1, now).err();
    let mut c = ctx(0);
    c.settings.migration_active = false;
    assert_eq!(run(c, 0), Some(GarError::MigrationInactive));
    let mut c = ctx(0);
    c.authority = key(1);
    assert_eq!(run(c, 0), Some(GarError::Unauthorized));
    assert_eq!(run(ctx(0), MIGRATION_DEADLINE), Some(GarError::MigrationExpired));
    assert_eq!(run(ctx(3000), 0), Some(GarError::InvalidAccountData));
}

#[test]
fn migration_is_finalized_for_good() {
    let mut data = vec![0u8; 44];
    data[40] = 5;
    data[41] = 1;
    let ctx = FinalizeMigration {
        settings: settings(),
        authority: key(50),
        registry: Some(RegistryAccount { key: registry_address(&program()).unwrap().0, owned: true, data }),
        program_id: program(),
    };
    let clock = Clock { slot: 3, unix_timestamp: 4 };
    let (after, event) = finalize_migration_handler(ctx.clone(), clock).unwrap();
    assert!(!after.migration_active);
    assert_eq!((event.gateway_count, event.slot, event.timestamp), (261, 3, 4));
    let mut again = ctx.clone();
    again.settings = after;
    assert_eq!(
        finalize_migration_handler(again, clock).err(),
        Some(Refusal::Gar(GarError::MigrationAlreadyFinalized))
    );
    let mut stranger = ctx.clone();
    stranger.authority = key(1);
    assert_eq!(
        finalize_migration_handler(stranger, clock).err(),
        Some(Refusal::Gar(GarError::Unauthorized))
    );
    let mut foreign = ctx.clone();
    foreign.registry.as_mut().unwrap().owned = false;
    assert_eq!(finalize_migration_handler(foreign, clock).unwrap().1.gateway_count, 0);
    let mut without = ctx.clone();
    without.registry = None;
    assert_eq!(finalize_migration_handler(without, clock).unwrap().1.gateway_count, 0);
    assert_eq!(finalize_migration_at(ctx, clock, None).err(), Some(Refusal::NoProgramAddress));
}

#[test]
fn settings_are_backfilled_once() {
    let mut data: Vec<u8> = (0..222).map(|i| i as u8).collect();
    for b in data[8..40].iter_mut() {
        *b = 50;
    }
    let run = |d: Vec<u8>, authority: u8, id: u8| {
        migrate_settings_set_arns_program_id_handler(d, key(authority), key(id))
    };
    let after = run(data.clone(), 50, 9).unwrap();
    assert_eq!(after.len(), 281);
    assert_eq!(&after[..221], &data[..221]);
    assert_eq!(&after[221..253], &[9u8; 32]);
    assert_eq!(&after[253..277], &[0u8; 24]);
    assert_eq!(&after[277..], &[221, 0, 0, 0]);
    assert_eq!(run(after.clone(), 50, 8), Ok(after));
    assert_eq!(run(data.clone(), 51, 9), Err(GarError::Unauthorized));
    assert_eq!(run(data[..39].to_vec(), 50, 9), Err(GarError::InvalidAccountData));
    assert_eq!(run(data[..221].to_vec(), 50, 9), Err(GarError::InvalidAccountData));
}

#[test]
fn supply_counters_are_set_while_migrating() {
    let ctx = MigrateSettingsSupplyCounters { settings: settings(), authority: key(50) };
    let s = migrate_settings_supply_counters_handler(ctx, 1, 2, 3).unwrap();
    assert_eq!((s.total_staked, s.total_delegated, s.total_withdrawn), (1, 2, 3));
    let mut stranger = ctx;
    stranger.authority = key(1);
    assert_eq!(
        migrate_settings_supply_counters_handler(stranger, 1, 2, 3).err(),
        Some(GarError::Unauthorized)
    );
    let mut over = ctx;
    over.settings.migration_active = false;
    assert_eq!(
        migrate_settings_supply_counters_handler(over, 1, 2, 3).err(),
        Some(GarError::MigrationInactive)
    );
}

#[test]
fn accounts_are_grown_and_written() {
    assert_eq!(grow_account(vec![1, 2], 4), vec![1, 2, 0, 0]);
    assert_eq!(grow_account(vec![1, 2, 3], 2), vec![1, 2, 3]);
    assert_eq!(grow_account(vec![1, 2, 3], 3), vec![1, 2, 3]);
    assert_eq!(grow_account(grow_account(vec![1], 3), 3), vec![1, 0, 0]);
    let mut data = vec![9u8; 4];
    assert!(write_account(&mut data, &vec![1, 2]));
    assert_eq!(data, vec![1, 2, 9, 9]);
    assert!(!write_account(&mut data, &vec![0u8; 5]));
    assert_eq!(data, vec![1, 2, 9, 9]);
}

fn gateway(version: SchemaVersion) -> Gateway {
    Gateway {
        operator: key(1),
        label: String::new(),
        fqdn: String::new(),
        port: 443,
        protocol: Protocol::Https,
        properties: String::new(),
        note: String::new(),
        operator_stake: 0,
        total_delegated_stake: 0,
        status: GatewayStatus::Joined,
        start_timestamp: 0,
        leave_timestamp: None,
        leave_epoch_duration: 0,
        stats: GatewayStats::default(),
        weights: GatewayWeights::default(),
        settings: GatewaySettings2 {
            allow_delegated_staking: false,
            delegate_reward_share_ratio: 0,
            min_delegation_amount: 0,
            allowlist_enabled: false,
        },
        registry_index: RegistryIndex::default(),
        observer_address: key(2),
        cumulative_reward_per_token: 0,
        bump: 1,
        version,
    }
}

#[test]
fn unversioned_accounts_reach_the_first_version() {
    let zero = v(0, 0, 0);
    let one = v(1, 0, 0);
    let mut s = GatewaySettings { version: zero, ..settings() };
    assert_eq!(migrate_gateway_settings_version(&mut s), Ok(()));
    assert_eq!(s.version, one);
    assert_eq!(migrate_gateway_settings_version(&mut s), Ok(()));
    s.version = v(0, 9, 0);
    assert_eq!(migrate_gateway_settings_version(&mut s), Err(GarError::UnknownSchemaVersion));
    let mut d = Delegation {
        gateway: key(1),
        delegator: key(2),
        amount: 3,
        start_timestamp: 4,
        reward_debt: 5,
        bump: 6,
        version: zero,
    };
    assert_eq!(migrate_delegation_version(&mut d), Ok(()));
    assert_eq!((d.version, d.amount), (one, 3));
    let mut c = WithdrawalCounter { owner: key(1), next_id: 2, bump: 3, version: zero };
    assert_eq!(migrate_withdrawal_counter_version(&mut c), Ok(()));
    assert_eq!(c.version, one);
    let mut w = Withdrawal {
        owner: key(1),
        withdrawal_id: 1,
        gateway: key(1),
        amount: 1,
        created_at: 1,
        available_at: 1,
        is_delegate: true,
        is_exit_vault: false,
        is_protected: false,
        bump: 1,
        version: zero,
    };
    assert_eq!(migrate_withdrawal_version(&mut w), Ok(()));
    assert_eq!(w.version, one);
    let mut a = AllowlistEntry { gateway: key(1), delegate: key(2), added_at: 3, bump: 4, version: zero };
    assert_eq!(migrate_allowlist_entry_version(&mut a), Ok(()));
    assert_eq!(a.version, one);
    let mut o = ObserverLookup { gateway: key(1), bump: 2, version: zero };
    assert_eq!(migrate_observer_lookup_version(&mut o), Ok(()));
    assert_eq!(o.version, one);
    let mut r = RedelegationRecord {
        delegator: key(1),
        redelegation_count: 2,
        last_redelegation_at: 3,
        fee_reset_at: 4,
        bump: 5,
        version: zero,
    };
    assert_eq!(migrate_redelegation_record_version(&mut r), Ok(()));
    assert_eq!(r.version, one);
    let mut e: EpochSettings = initialize_epochs(epochs(), epoch_params(), 0).unwrap();
    e.version = zero;
    assert_eq!(migrate_epoch_settings_version(&mut e), Ok(()));
    assert_eq!(e.version, one);
    let mut b = Observation {
        epoch_index: 1,
        observer: key(1),
        gateway_results: [0u8; 375],
        gateway_count: 1,
        report_tx_id: [0u8; 32],
        submitted_at: 1,
        bump: 1,
        version: zero,
    };
    assert_eq!(migrate_observation_version(&mut b), Ok(()));
    assert_eq!(b.version, one);
}

#[test]
fn older_gateways_are_refused() {
    let mut g = gateway(v(0, 0, 0));
    assert_eq!(migrate_gateway_version(&mut g), Err(GarError::UnknownSchemaVersion));
    assert_eq!(g.version, v(1, 0, 0));
    let mut g = gateway(v(1, 0, 0));
    assert_eq!(migrate_gateway_version(&mut g), Err(GarError::UnknownSchemaVersion));
    let mut g = gateway(v(1, 1, 0));
    assert_eq!(migrate_gateway_version(&mut g), Ok(()));
    assert_eq!(g.version, v(1, 1, 0));
}

#[test]
fn second_migration_is_refused() {
    let mut s = GatewaySettings { version: v(0, 0, 0), ..settings() };
    assert_eq!(check_outdated(s.version, gateway_settings_version()), Ok(()));
    assert_eq!(migrate_gateway_settings_version(&mut s), Ok(()));
    assert_eq!(check_outdated(s.version, gateway_settings_version()), Err(GarError::AlreadyLatestVersion));
    assert_eq!(check_outdated(v(2, 0, 0), v(1, 9, 9)), Err(GarError::AlreadyLatestVersion));
    assert_eq!(check_outdated(v(1, 9, 9), v(2, 0, 0)), Ok(()));
}
