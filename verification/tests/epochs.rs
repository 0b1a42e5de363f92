use ario_gar::addresses::{gateway_address, name_registry_address};
use ario_gar::error::GarError;
use ario_gar::instructions::effects::Refusal;
use ario_gar::instructions::epoch::{
    admin_close_stale_epoch, admin_set_current_epoch_index, admin_set_epoch_duration, close_epoch,
    close_epoch_settings, create_epoch, create_epoch_with, set_epochs_enabled, AdminCloseStaleEpoch, Clock,
    CloseEpoch, CloseEpochSettings, CreateEpoch, UpdateEpochSettings,
};
use ario_gar::instructions::gateway_account::GatewayAccount;
use ario_gar::instructions::observation::{
    close_observation, save_observations, CloseObservation, SaveObservations,
};
use ario_gar::instructions::places::{count_on_time, gateway_places, gateway_slots};
use ario_gar::instructions::prescribe::{
    prescribe_epoch, probe_names, resolve_observer, PrescribeAccount, PrescribeEpoch,
};
use ario_gar::instructions::tally::{tally_weights, times_fit, weigh_gateway, TallyWeights};
use ario_gar::pubkey::Pubkey;
use ario_gar::state::{
    Epoch, EpochSettings, Gateway, GatewayRegistry, GatewaySettings, GatewaySettings2, GatewaySlot, GatewayStats,
    GatewayStatus, GatewayWeights, Observation, Protocol, RegistryIndex, SchemaVersion,
};

fn key(n: u8) -> Pubkey {
    Pubkey::new_from_array([n; 32])
}

fn program() -> Pubkey {
    key(200)
}

fn gateway(operator: u8) -> Gateway {
    Gateway {
        operator: key(operator),
        label: "label".to_string(),
        fqdn: "example.org".to_string(),
        port: 443,
        protocol: Protocol::Https,
        properties: String::new(),
        note: String::new(),
        operator_stake: 20_000_000_000,
        total_delegated_stake: 0,
        status: GatewayStatus::Joined,
        start_timestamp: 0,
        leave_timestamp: None,
        leave_epoch_duration: 0,
        stats: GatewayStats::default(),
        weights: GatewayWeights::default(),
        settings: GatewaySettings2 {
            allow_delegated_staking: true,
            delegate_reward_share_ratio: 1000,
            min_delegation_amount: 10_000_000,
            allowlist_enabled: false,
        },
        registry_index: RegistryIndex::default(),
        observer_address: key(operator + 100),
        cumulative_reward_per_token: 0,
        bump: 255,
        version: SchemaVersion::new(1, 1, 0),
    }
}

fn settings() -> GatewaySettings {
    GatewaySettings {
        authority: key(50),
        mint: key(51),
        min_operator_stake: 20_000_000_000,
        min_delegate_stake: 10_000_000,
        withdrawal_period: 2_592_000,
        max_expedited_withdrawal_penalty: 500_000,
        min_expedited_withdrawal_penalty: 100_000,
        min_expedited_withdrawal_amount: 1_000_000,
        max_delegates_per_gateway: 10_000,
        migration_active: true,
        migration_authority: key(52),
        stake_token_account: key(53),
        protocol_token_account: key(54),
        arns_program_id: key(55),
        total_staked: 0,
        total_delegated: 0,
        total_withdrawn: 0,
        bump: 255,
        version: SchemaVersion::new(1, 0, 0),
    }
}

fn epoch_settings() -> EpochSettings {
    EpochSettings {
        authority: key(50),
        epoch_duration: 86_400,
        prescribed_observer_count: 50,
        prescribed_name_count: 2,
        min_observer_stake: 0,
        slash_rate: 0,
        enabled: true,
        current_epoch_index: 3,
        genesis_timestamp: 1_000_000,
        tenure_weight_duration: 15_552_000,
        max_tenure_weight: 4,
        gateway_reward_ratio: 900_000,
        observer_reward_ratio: 100_000,
        missed_observation_penalty_rate: 250_000,
        max_reward_rate: 1_000,
        min_reward_rate: 500,
        reward_decay_start_epoch: 365,
        reward_decay_last_epoch: 547,
        max_consecutive_failures: 30,
        failed_gateway_slash_rate: 1_000_000,
        disable_at: 0,
        bump: 255,
        version: SchemaVersion::new(1, 0, 0),
    }
}

const START: i64 = 1_000_000 + 3 * 86_400;

fn registry(operators: &[u8]) -> GatewayRegistry {
    let mut gateways = vec![GatewaySlot::fresh(Pubkey::default(), 0, GatewaySlot::STATUS_JOINED); 3000];
    for (i, &operator) in operators.iter().enumerate() {
        gateways[i] = GatewaySlot::fresh(key(operator), 0, GatewaySlot::STATUS_JOINED);
    }
    GatewayRegistry { authority: key(50), count: operators.len() as u32, _padding: [0u8; 4], gateways }
}

fn creation(operators: &[u8]) -> CreateEpoch {
    CreateEpoch {
        epoch_settings: epoch_settings(),
        registry: registry(operators),
        settings: settings(),
        protocol_token_account: key(54),
        protocol_balance: 500_000_000_000,
        epoch_bump: 7,
    }
}

fn created(operators: &[u8]) -> Epoch {
    create_epoch(creation(operators), Clock { slot: 9, unix_timestamp: START }).unwrap().1
}

fn account(gateway: Gateway) -> GatewayAccount {
    let (key, _) = gateway_address(&gateway.operator, &program()).unwrap();
    GatewayAccount { key, owned: true, writable: true, gateway: Some(gateway) }
}

fn tally(operators: &[u8]) -> TallyWeights {
    TallyWeights {
        settings: settings(),
        epoch_settings: epoch_settings(),
        epoch: created(operators),
        registry: registry(operators),
        accounts: operators.iter().map(|&o| account(gateway(o))).collect(),
        program_id: program(),
    }
}

fn prescribe_account(g: Gateway) -> PrescribeAccount {
    let (key, _) = gateway_address(&g.operator, &program()).unwrap();
    PrescribeAccount { key, owner: program(), gateway: Some(g), data: Vec::new() }
}

fn prescription(operators: &[u8]) -> PrescribeEpoch {
    let (t, _) = tally_weights(tally(operators), START).unwrap();
    PrescribeEpoch {
        settings: settings(),
        epoch_settings: epoch_settings(),
        epoch: t.epoch,
        registry: t.registry,
        accounts: operators.iter().map(|&o| prescribe_account(gateway(o))).collect(),
        program_id: program(),
    }
}

fn hash(data: &[u8]) -> [u8; 32] {
    anchor_lang::solana_program::hash::hash(data).to_bytes()
}

#[test]
fn gateway_reward_split_calculation() {
    let (_, epoch, _) = create_epoch_with(creation(&[1]), START, [0u8; 32]).unwrap();
    assert_eq!(epoch.reward_rate, 1_000);
    assert_eq!(epoch.total_eligible_rewards, 500_000_000);
}

#[test]
fn per_gateway_and_observer_reward() {
    let (epoch, event) = prescribe_epoch(prescription(&[1, 2, 3, 4, 5]), START).unwrap();
    assert_eq!(epoch.total_eligible_rewards, 500_000_000);
    assert_eq!(epoch.observer_count, 5);
    assert_eq!(epoch.per_gateway_reward, 90_000_000);
    assert_eq!(epoch.per_observer_reward, 10_000_000);
    assert_eq!((event.per_gateway_reward, event.per_observer_reward), (90_000_000, 10_000_000));
}

#[test]
fn epoch_takes_its_place_in_time() {
    let (after, epoch, event) =
        create_epoch(creation(&[1, 2]), Clock { slot: 9, unix_timestamp: START + 5 }).unwrap();
    assert_eq!(after.current_epoch_index, 4);
    assert_eq!((epoch.epoch_index, epoch.start_timestamp, epoch.end_timestamp), (3, START, START + 86_400));
    assert_eq!((epoch.active_gateway_count, epoch.bump, epoch.version_bytes), (2, 7, [1, 0, 0]));
    assert_eq!((event.epoch_index, event.timestamp), (3, START + 5));
    let mut entropy = 9u64.to_le_bytes().to_vec();
    entropy.extend_from_slice(&3u64.to_le_bytes());
    entropy.extend_from_slice(&(START + 5).to_le_bytes());
    assert_eq!(epoch.hashchain, hash(&entropy));
}

#[test]
fn epoch_is_not_created() {
    let refused = |ctx: CreateEpoch, now: i64| create_epoch_with(ctx, now, [0u8; 32]).err();
    let mut ctx = creation(&[1]);
    ctx.protocol_token_account = key(1);
    assert_eq!(refused(ctx, START), Some(GarError::InvalidParameter));
    let mut ctx = creation(&[1]);
    ctx.epoch_settings.enabled = false;
    assert_eq!(refused(ctx, START), Some(GarError::EpochsNotEnabled));
    assert_eq!(refused(creation(&[1]), START - 1), Some(GarError::EpochNotStarted));
    let mut ctx = creation(&[1]);
    ctx.epoch_settings.genesis_timestamp = i64::MAX;
    assert_eq!(refused(ctx, START), Some(GarError::ArithmeticOverflow));
    let mut ctx = creation(&[1]);
    ctx.epoch_settings.disable_at = START;
    assert_eq!(refused(ctx.clone(), START), Some(GarError::EpochsNotEnabled));
    ctx.epoch_settings.disable_at = START + 1;
    assert_eq!(refused(ctx, START), None);
}

fn update() -> UpdateEpochSettings {
    UpdateEpochSettings { epoch_settings: epoch_settings(), authority: key(50) }
}

#[test]
fn disabling_waits_seven_days() {
    let (off, event) = set_epochs_enabled(update(), false, 1_000).unwrap();
    assert!(off.epoch_settings.enabled);
    assert_eq!(off.epoch_settings.disable_at, 1_000 + 604_800);
    assert!(!event.enabled);
    let (on, _) = set_epochs_enabled(off, true, 2_000).unwrap();
    assert_eq!(on.epoch_settings.disable_at, 0);
    let mut ctx = update();
    ctx.authority = key(1);
    assert_eq!(set_epochs_enabled(ctx, true, 0).err(), Some(GarError::Unauthorized));
    assert_eq!(set_epochs_enabled(update(), false, i64::MAX).err(), Some(GarError::ArithmeticOverflow));
}

#[test]
fn new_duration_anchors_the_next_epoch() {
    let (after, event) = admin_set_epoch_duration(update(), 600, 5_000_000).unwrap();
    assert_eq!(after.epoch_settings.genesis_timestamp, 5_000_000 - 3 * 600);
    assert_eq!((event.old_duration, event.new_duration), (86_400, 600));
    let mut ctx = creation(&[1]);
    ctx.epoch_settings = after.epoch_settings;
    let (_, epoch, _) = create_epoch_with(ctx, 5_000_000, [0u8; 32]).unwrap();
    assert_eq!(epoch.start_timestamp, 5_000_000);
    assert_eq!(admin_set_epoch_duration(update(), 59, 0).err(), Some(GarError::InvalidParameter));
    assert_eq!(admin_set_epoch_duration(update(), i64::MAX, 0).err(), Some(GarError::ArithmeticOverflow));
    let mut ctx = update();
    ctx.authority = key(1);
    assert_eq!(admin_set_epoch_duration(ctx, 600, 0).err(), Some(GarError::Unauthorized));
}

#[test]
fn counter_is_advanced_once() {
    let mut ctx = update();
    ctx.epoch_settings.enabled = false;
    ctx.epoch_settings.current_epoch_index = 0;
    let (after, event) = admin_set_current_epoch_index(ctx, 400, 50_000_000).unwrap();
    assert_eq!(after.epoch_settings.current_epoch_index, 400);
    assert_eq!(event.new_genesis_timestamp, 50_000_000 - 400 * 86_400);
    assert_eq!(
        admin_set_current_epoch_index(after, 401, 0).err(),
        Some(GarError::EpochCounterAlreadyAdvanced)
    );
    assert_eq!(admin_set_current_epoch_index(ctx, 0, 0).err(), Some(GarError::InvalidParameter));
    assert_eq!(admin_set_current_epoch_index(ctx, 100_001, 0).err(), Some(GarError::InvalidParameter));
    assert_eq!(admin_set_current_epoch_index(update(), 5, 0).err(), Some(GarError::EpochsAlreadyEnabled));
    let mut stranger = ctx;
    stranger.authority = key(1);
    assert_eq!(admin_set_current_epoch_index(stranger, 5, 0).err(), Some(GarError::Unauthorized));
    let mut long = ctx;
    long.epoch_settings.epoch_duration = i64::MAX;
    assert_eq!(admin_set_current_epoch_index(long, 2, 0).err(), Some(GarError::ArithmeticOverflow));
}

#[test]
fn settings_and_stale_epochs_close_for_the_authority() {
    let ctx = CloseEpochSettings { epoch_settings: epoch_settings(), authority: key(50) };
    assert!(close_epoch_settings(ctx).is_ok());
    let mut stranger = ctx;
    stranger.authority = key(1);
    assert_eq!(close_epoch_settings(stranger).err(), Some(GarError::Unauthorized));
    let ctx = AdminCloseStaleEpoch {
        settings: settings(),
        epoch_settings: epoch_settings(),
        authority: key(50),
    };
    assert!(admin_close_stale_epoch(ctx).is_ok());
    let mut stranger = ctx;
    stranger.authority = key(1);
    assert_eq!(admin_close_stale_epoch(stranger).err(), Some(GarError::Unauthorized));
    let mut over = ctx;
    over.settings.migration_active = false;
    assert_eq!(admin_close_stale_epoch(over).err(), Some(GarError::MigrationInactive));
}

#[test]
fn weights_are_tallied_in_batches() {
    let mut first = tally(&[1, 2]);
    first.accounts.truncate(1);
    first.accounts[0].gateway.as_mut().unwrap().total_delegated_stake = 20_000_000_000;
    let (half, event) = tally_weights(first, START).unwrap();
    assert!(event.is_none());
    assert_eq!((half.epoch.tally_index, half.epoch.weights_tallied), (1, 0));
    let mut g = gateway(1);
    g.total_delegated_stake = 20_000_000_000;
    let (weights, counted) =
        weigh_gateway(&settings(), &epoch_settings(), 3, START, &g, START);
    assert_eq!(weights.stake_weight, 2_000_000);
    assert_eq!(half.registry.gateways[0].composite_weight, counted);
    assert_eq!(half.registry.gateways[0].delegated_at_tally, 1);
    assert_eq!(half.accounts[0].gateway.as_ref().unwrap().weights.weights_epoch, 3);
    let mut second = tally(&[1, 2]);
    second.epoch = half.epoch;
    second.registry = half.registry;
    second.accounts = vec![account(gateway(2))];
    let (whole, event) = tally_weights(second, START).unwrap();
    let sum = whole.registry.gateways[0].composite_weight + whole.registry.gateways[1].composite_weight;
    assert_eq!(whole.epoch.total_composite_weight(), sum as u128);
    assert_eq!(whole.epoch.weights_tallied, 1);
    assert_eq!(event.unwrap().total_weight, sum);
    let mut third = tally(&[1, 2]);
    third.epoch = whole.epoch;
    assert_eq!(
        tally_weights(third, START).err(),
        Some(Refusal::Gar(GarError::WeightsAlreadyTallied))
    );
}

#[test]
fn late_and_leaving_gateways_have_no_weight() {
    let mut ctx = tally(&[1, 2, 3]);
    ctx.accounts[0].gateway.as_mut().unwrap().start_timestamp = START + 1;
    ctx.accounts[1].gateway.as_mut().unwrap().status = GatewayStatus::Leaving;
    let (after, _) = tally_weights(ctx, START + 10).unwrap();
    assert_eq!(after.registry.gateways[0].composite_weight, 0);
    assert_eq!(after.registry.gateways[1].composite_weight, 0);
    assert!(after.registry.gateways[2].composite_weight > 0);
}

#[test]
fn tally_is_refused() {
    let gar = Some(Refusal::Gar(GarError::InvalidGatewayAccount));
    let mut ctx = tally(&[1]);
    ctx.accounts[0].owned = false;
    assert_eq!(tally_weights(ctx, START).err(), gar);
    let mut ctx = tally(&[1]);
    ctx.accounts[0].gateway = None;
    assert_eq!(tally_weights(ctx, START).err(), gar);
    let mut ctx = tally(&[1]);
    ctx.accounts[0].key = key(3);
    assert_eq!(tally_weights(ctx, START).err(), gar);
    let mut ctx = tally(&[1]);
    ctx.registry.gateways[0].address = key(3);
    assert_eq!(tally_weights(ctx, START).err(), gar);
}

#[test]
fn observers_are_those_of_the_drawn_gateways() {
    let (epoch, event) = prescribe_epoch(prescription(&[1, 2, 3]), START).unwrap();
    let n = epoch.observer_count as usize;
    assert_eq!(n, 3);
    for i in 0..n {
        let operator = epoch.prescribed_observer_gateways[i].bytes[0];
        assert_eq!(epoch.prescribed_observers[i], key(operator + 100));
        for j in 0..i {
            assert_ne!(epoch.prescribed_observers[i], epoch.prescribed_observers[j]);
        }
    }
    assert_eq!((epoch.prescriptions_done, epoch.name_count, event.observer_count), (1, 0, 3));
}

#[test]
fn first_observer_follows_from_the_hashchain() {
    let ctx = prescription(&[1, 2, 3]);
    let weights: Vec<u128> = (0..3).map(|i| ctx.registry.gateways[i].composite_weight as u128).collect();
    let total: u128 = weights.iter().sum();
    let digest = hash(&ctx.epoch.hashchain);
    let mut low = [0u8; 16];
    low.copy_from_slice(&digest[..16]);
    let mut value = u128::from_le_bytes(low) % total;
    let mut expected = 0usize;
    while value >= weights[expected] {
        value -= weights[expected];
        expected += 1;
    }
    let (epoch, _) = prescribe_epoch(ctx, START).unwrap();
    assert_eq!(epoch.prescribed_observer_gateways[0], key(expected as u8 + 1));
}

fn names(count: u32) -> Vec<u8> {
    let mut data = vec![0u8; 48 + 40 * count as usize];
    data[40..44].copy_from_slice(&count.to_le_bytes());
    for i in 0..count as usize {
        data[48 + 40 * i..48 + 40 * i + 32].copy_from_slice(&[i as u8 + 1; 32]);
    }
    data
}

fn name_account(data: Vec<u8>) -> PrescribeAccount {
    PrescribeAccount { key: name_registry_address(&key(55)).unwrap().0, owner: key(55), gateway: None, data }
}

#[test]
fn names_are_chosen_from_the_registry() {
    let mut ctx = prescription(&[1]);
    ctx.accounts.push(name_account(names(5)));
    let digest = hash(&ctx.epoch.hashchain);
    let mut low = [0u8; 8];
    low.copy_from_slice(&digest[..8]);
    let first = (u64::from_le_bytes(low) % 5) as u8 + 1;
    let (epoch, _) = prescribe_epoch(ctx, START).unwrap();
    assert_eq!(epoch.name_count, 2);
    assert_eq!(epoch.prescribed_names[0], [first; 32]);
    assert_ne!(epoch.prescribed_names[0], epoch.prescribed_names[1]);
    let mut ctx = prescription(&[1]);
    ctx.accounts.push(name_account(names(1)));
    assert_eq!(prescribe_epoch(ctx, START).unwrap().0.name_count, 1);
    let mut ctx = prescription(&[1]);
    ctx.accounts.push(name_account(vec![0u8; 47]));
    assert_eq!(prescribe_epoch(ctx, START).unwrap().0.name_count, 0);
}

#[test]
fn probing_wraps_and_skips() {
    let mut data = names(4);
    for i in 0..32 {
        data[48 + i] = 0;
    }
    let mut chosen: Vec<[u8; 32]> = vec![[4u8; 32]];
    probe_names(&data, 4, 3, &mut chosen);
    assert_eq!(chosen, vec![[4u8; 32], [2u8; 32]]);
    chosen.push([3u8; 32]);
    probe_names(&data, 4, 0, &mut chosen);
    assert_eq!(chosen.len(), 3);
}

#[test]
fn prescription_is_refused() {
    let refused = |ctx: PrescribeEpoch| prescribe_epoch(ctx, START).err();
    let gar = |e: GarError| Some(Refusal::Gar(e));
    let mut ctx = prescription(&[1]);
    ctx.epoch.weights_tallied = 0;
    assert_eq!(refused(ctx), gar(GarError::WeightsNotTallied));
    let mut ctx = prescription(&[1]);
    ctx.epoch.prescriptions_done = 1;
    assert_eq!(refused(ctx), gar(GarError::PrescriptionsAlreadyDone));
    let mut ctx = prescription(&[1]);
    ctx.accounts.clear();
    assert_eq!(refused(ctx), gar(GarError::InvalidGatewayAccount));
    let mut ctx = prescription(&[1]);
    ctx.accounts[0].owner = key(1);
    assert_eq!(refused(ctx), gar(GarError::InvalidGatewayAccount));
    let mut ctx = prescription(&[1]);
    let mut wrong = name_account(names(2));
    wrong.owner = key(1);
    ctx.accounts.push(wrong);
    assert_eq!(refused(ctx), gar(GarError::InvalidNameRegistry));
    let mut ctx = prescription(&[1]);
    let mut wrong = name_account(names(2));
    wrong.key = key(1);
    ctx.accounts.push(wrong);
    assert_eq!(refused(ctx), gar(GarError::InvalidNameRegistry));
    let accounts = vec![prescribe_account(gateway(1))];
    assert_eq!(
        resolve_observer(&accounts, &accounts[0].key, &key(2), &program()),
        Err(GarError::InvalidGatewayAccount)
    );
    assert_eq!(resolve_observer(&accounts, &accounts[0].key, &key(1), &program()), Ok(key(101)));
}

#[test]
fn nothing_is_drawn_without_weight() {
    let mut ctx = prescription(&[1, 2]);
    ctx.registry.gateways[0].composite_weight = 0;
    ctx.registry.gateways[1].composite_weight = 0;
    ctx.accounts.clear();
    let (epoch, _) = prescribe_epoch(ctx, START).unwrap();
    assert_eq!((epoch.observer_count, epoch.per_gateway_reward, epoch.per_observer_reward), (0, 0, 0));
}

fn report(operators: &[u8]) -> SaveObservations {
    let (epoch, _) = prescribe_epoch(prescription(operators), START).unwrap();
    SaveObservations { observer: epoch.prescribed_observers[1], epoch, observation_bump: 6 }
}

#[test]
fn report_counts_against_failed_gateways() {
    let ctx = report(&[1, 2, 3]);
    let mut results = [0u8; 375];
    results[0] = 0b101;
    let (epoch, observation, event) = save_observations(ctx, results, 3, [8u8; 32], START + 1).unwrap();
    assert_eq!(&epoch.failure_counts[..4], &[0, 1, 0, 0]);
    assert_eq!(epoch.observations_submitted, 1);
    assert!(epoch.is_observed(1) && !epoch.is_observed(0));
    assert_eq!((observation.observer, observation.gateway_count), (ctx.observer, 3));
    assert_eq!((observation.bump, observation.report_tx_id), (6, [8u8; 32]));
    assert_eq!(event.observer, ctx.observer);
}

#[test]
fn report_is_refused() {
    let refused = |ctx: SaveObservations, count: u16, now: i64| {
        save_observations(ctx, [0u8; 375], count, [0u8; 32], now).err()
    };
    let ctx = report(&[1, 2]);
    assert_eq!(refused(ctx, 2, START - 1), Some(GarError::EpochNotStarted));
    assert_eq!(refused(ctx, 2, START + 86_400), Some(GarError::EpochEnded));
    assert_eq!(refused(ctx, 3, START), Some(GarError::InvalidObservation));
    let mut stranger = ctx;
    stranger.observer = key(9);
    assert_eq!(refused(stranger, 2, START), Some(GarError::NotPrescribedObserver));
    let mut early = ctx;
    early.epoch.prescriptions_done = 0;
    assert_eq!(refused(early, 2, START), Some(GarError::PrescriptionsNotDone));
}

#[test]
fn epoch_closes_after_its_observations() {
    let mut epoch = created(&[1]);
    let observation = Observation {
        epoch_index: 3,
        observer: key(101),
        gateway_results: [0u8; 375],
        gateway_count: 1,
        report_tx_id: [0u8; 32],
        submitted_at: START,
        bump: 1,
        version: SchemaVersion::new(0, 0, 0),
    };
    epoch.observations_submitted = 1;
    let ctx = CloseObservation { epoch, observation };
    assert_eq!(close_observation(ctx, 4).err(), Some(GarError::InvalidEpochIndex));
    assert_eq!(close_observation(ctx, 3).err(), Some(GarError::EpochNotCloseable));
    let mut settings = epoch_settings();
    settings.current_epoch_index = 10;
    let close = |epoch: Epoch, settings: EpochSettings| {
        close_epoch(CloseEpoch { epoch_settings: settings, epoch, epoch_lamports: 77 }, 5)
    };
    assert_eq!(close(epoch, settings).err(), Some(GarError::EpochNotCloseable));
    epoch.rewards_distributed = 1;
    assert_eq!(close(epoch, settings).err(), Some(GarError::EpochObservationsNotClosed));
    let closed = close_observation(CloseObservation { epoch, observation }, 3).unwrap();
    assert_eq!(closed.observations_closed, 1);
    assert_eq!(close(closed, settings).unwrap().rent_recovered, 77);
    settings.current_epoch_index = 9;
    assert_eq!(close(closed, settings).err(), Some(GarError::EpochNotCloseable));
}

#[test]
fn fifty_observers_at_most_are_drawn() {
    let operators: Vec<u8> = (1..=60).collect();
    let mut many = prescription(&operators);
    many.accounts.push(name_account(names(2)));
    let (fifty, _) = prescribe_epoch(many.clone(), START).unwrap();
    assert_eq!(fifty.observer_count, 50);
    many.epoch_settings.prescribed_observer_count = 60;
    let (epoch, event) = prescribe_epoch(many.clone(), START).unwrap();
    assert_eq!((epoch.observer_count, event.observer_count, epoch.name_count), (50, 50, 2));
    assert_eq!(epoch.prescribed_observers, fifty.prescribed_observers);
    // Of forty that carry a weight, no more than forty are drawn.
    for slot in many.registry.gateways.iter_mut().take(20) {
        slot.composite_weight = 0;
    }
    let (epoch, _) = prescribe_epoch(many, START).unwrap();
    assert!(epoch.observer_count > 30 && epoch.observer_count <= 40);
}

/// A registry whose slots hold gateways that joined at the given times.
fn joined_at(operators: &[u8], times: &[i64]) -> GatewayRegistry {
    let mut r = registry(operators);
    for (slot, &time) in r.gateways.iter_mut().zip(times) {
        slot.start_timestamp = time;
    }
    r
}

fn created_among(registry: GatewayRegistry) -> Epoch {
    let ctx = CreateEpoch { registry, ..creation(&[]) };
    create_epoch(ctx, Clock { slot: 9, unix_timestamp: START + 100 }).unwrap().1
}

#[test]
fn late_gateways_are_not_counted() {
    let r = joined_at(&[1, 2, 3, 4], &[0, START, START + 1, START + 2]);
    assert_eq!(count_on_time(&r, START), 2);
    let epoch = created_among(r.clone());
    assert_eq!(epoch.active_gateway_count, 2);
    assert_eq!(gateway_places(&r, &epoch), vec![0, 1]);
    assert_eq!(created_among(joined_at(&[1, 2], &[START + 1, START + 1])).active_gateway_count, 0);
    assert_eq!(created_among(joined_at(&[1, 2], &[START - 1, START])).active_gateway_count, 2);
}

#[test]
fn late_slot_that_moved_up_is_stood_in_for() {
    let r = joined_at(&[9, 2, 8, 4, 7, 6], &[START + 1, 0, START + 2, 5, START + 3, 7]);
    let epoch = created_among(r.clone());
    assert_eq!(epoch.active_gateway_count, 3);
    assert_eq!(gateway_places(&r, &epoch), vec![3, 1, 5]);
    let ctx = |operators: &[u8]| TallyWeights {
        epoch,
        registry: r.clone(),
        accounts: operators.iter().map(|&o| account(gateway(o))).collect(),
        ..tally(&[])
    };
    assert_eq!(
        tally_weights(ctx(&[9, 2, 8]), START + 100).err(),
        Some(Refusal::Gar(GarError::InvalidGatewayAccount))
    );
    let (after, event) = tally_weights(ctx(&[4, 2, 6]), START + 100).unwrap();
    assert_eq!(event.unwrap().gateway_count, 3);
    let weighed: Vec<bool> =
        after.registry.gateways.iter().take(6).map(|slot| slot.composite_weight > 0).collect();
    assert_eq!(weighed, vec![false, true, false, true, false, true]);
    // The places stay, and the sum is that of the gateways counted.
    assert_eq!(gateway_places(&after.registry, &after.epoch), vec![3, 1, 5]);
    let sum: u128 = gateway_slots(&after.registry, &after.epoch)
        .iter()
        .map(|slot| slot.composite_weight as u128)
        .sum();
    assert_eq!(after.epoch.total_composite_weight(), sum);
    // All three can be drawn and share in the rewards.
    let prescribed = PrescribeEpoch {
        epoch: after.epoch,
        registry: after.registry,
        accounts: [2u8, 4, 6].iter().map(|&o| prescribe_account(gateway(o))).collect(),
        ..prescription(&[])
    };
    let (epoch, _) = prescribe_epoch(prescribed, START + 100).unwrap();
    let mut drawn = epoch.prescribed_observer_gateways[..3].to_vec();
    drawn.sort_by_key(|k| k.to_bytes());
    assert_eq!((epoch.observer_count, drawn), (3, vec![key(2), key(4), key(6)]));
    assert_eq!(epoch.per_gateway_reward, epoch.total_eligible_rewards / 10 * 9 / 3);
}

#[test]
fn joining_and_freeing_keep_gateways_placed() {
    let mut r = joined_at(&[9, 2, 4], &[START + 1, 0, 5]);
    let epoch = created_among(r.clone());
    assert_eq!(gateway_places(&r, &epoch), vec![2, 1]);
    // One more joins.
    r.gateways[3] = GatewaySlot::fresh(key(5), START + 200, GatewaySlot::STATUS_JOINED);
    r.count = 4;
    assert_eq!(gateway_places(&r, &epoch), vec![2, 1]);
    // The first slot is freed, and the last one moves into it.
    r.gateways[0] = r.gateways[3];
    r.gateways[3] = GatewaySlot::fresh(Pubkey::default(), 0, GatewaySlot::STATUS_JOINED);
    r.count = 3;
    assert_eq!(gateway_places(&r, &epoch), vec![2, 1]);
    // So is the second, and the gateway that stood in moves there.
    r.gateways[1] = r.gateways[2];
    r.gateways[2] = GatewaySlot::fresh(Pubkey::default(), 0, GatewaySlot::STATUS_JOINED);
    r.count = 2;
    assert_eq!(gateway_places(&r, &epoch), vec![0, 1]);
}

#[test]
fn only_gateways_that_are_weighed_need_a_running_time() {
    let long_ago = |ctx: &mut TallyWeights, k: usize| {
        ctx.accounts[k].gateway.as_mut().unwrap().start_timestamp = i64::MIN;
    };
    let mut ctx = tally(&[1, 2]);
    assert!(times_fit(&ctx, START));
    long_ago(&mut ctx, 1);
    assert!(!times_fit(&ctx, START));
    assert!(times_fit(&ctx, -1));
    // A gateway that has left is passed over.
    ctx.accounts[1].gateway.as_mut().unwrap().status = GatewayStatus::Leaving;
    assert!(times_fit(&ctx, START));
    assert!(tally_weights(ctx, START).is_ok());
    // One that is not in turn is refused, and one behind the last not looked at.
    let mut ctx = tally(&[1, 2]);
    ctx.accounts.swap(0, 1);
    long_ago(&mut ctx, 0);
    assert!(times_fit(&ctx, START));
    assert!(tally_weights(ctx, START).is_err());
    let mut ctx = tally(&[1, 2]);
    let extra = ctx.accounts[0].clone();
    ctx.accounts.push(extra);
    long_ago(&mut ctx, 2);
    assert!(times_fit(&ctx, START));
    assert!(tally_weights(ctx, START).is_ok());
}

#[test]
fn report_reaches_as_far_as_there_are_slots() {
    let mut ctx = report(&[1, 2, 3]);
    ctx.epoch.active_gateway_count = 3001;
    let mut results = [0xffu8; 375];
    results[374] = 0x7f;
    let (epoch, _, _) = save_observations(ctx, results, 3001, [8u8; 32], START + 1).unwrap();
    assert_eq!(epoch.failure_counts[2998], 0);
    assert_eq!(epoch.failure_counts[2999], 1);
}
