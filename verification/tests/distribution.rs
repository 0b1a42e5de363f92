use ario_gar::addresses::gateway_address;
use ario_gar::error::GarError;
use ario_gar::instructions::distribution::{
    assess_gateway, compute_full_reward, credit_gateway, distribute_epoch, release_treasury_data,
    split_scaled_reward, update_stats, DistributeEpoch, PendingDistribution, RELEASE_TREASURY_NAME,
};
use ario_gar::instructions::effects::{Holder, Refusal, TokenTransfer};
use ario_gar::instructions::gateway_account::GatewayAccount;
use ario_gar::pubkey::Pubkey;
use ario_gar::state::{
    settle_delegate_rewards, Delegation, Epoch, EpochSettings, Gateway, GatewayRegistry, GatewaySettings,
    GatewaySettings2, GatewaySlot, GatewayStats, GatewayStatus, GatewayWeights, Protocol, RegistryIndex,
    SchemaVersion,
};

fn key(n: u8) -> Pubkey {
    Pubkey::new_from_array([n; 32])
}

fn program() -> Pubkey {
    key(200)
}

fn gateway(operator: u8) -> Gateway {
    Gateway {
        operator: key(operator),
        label: "label".to_string(),
        fqdn: "example.org".to_string(),
        port: 443,
        protocol: Protocol::Https,
        properties: String::new(),
        note: String::new(),
        operator_stake: 20_000_000_000,
        total_delegated_stake: 0,
        status: GatewayStatus::Joined,
        start_timestamp: 0,
        leave_timestamp: None,
        leave_epoch_duration: 0,
        stats: GatewayStats::default(),
        weights: GatewayWeights { weights_epoch: 3, ..GatewayWeights::default() },
        settings: GatewaySettings2 {
            allow_delegated_staking: true,
            delegate_reward_share_ratio: 1000,
            min_delegation_amount: 10_000_000,
            allowlist_enabled: false,
        },
        registry_index: RegistryIndex::default(),
        observer_address: key(operator + 100),
        cumulative_reward_per_token: 0,
        bump: 255,
        version: SchemaVersion::new(1, 1, 0),
    }
}

fn settings() -> GatewaySettings {
    GatewaySettings {
        authority: key(50),
        mint: key(51),
        min_operator_stake: 20_000_000_000,
        min_delegate_stake: 10_000_000,
        withdrawal_period: 2_592_000,
        max_expedited_withdrawal_penalty: 500_000,
        min_expedited_withdrawal_penalty: 100_000,
        min_expedited_withdrawal_amount: 1_000_000,
        max_delegates_per_gateway: 10_000,
        migration_active: false,
        migration_authority: key(52),
        stake_token_account: key(53),
        protocol_token_account: key(54),
        arns_program_id: key(55),
        total_staked: 0,
        total_delegated: 0,
        total_withdrawn: 0,
        bump: 255,
        version: SchemaVersion::new(1, 0, 0),
    }
}

fn epoch_settings() -> EpochSettings {
    EpochSettings {
        authority: key(50),
        epoch_duration: 86_400,
        prescribed_observer_count: 50,
        prescribed_name_count: 2,
        min_observer_stake: 0,
        slash_rate: 0,
        enabled: true,
        current_epoch_index: 4,
        genesis_timestamp: 0,
        tenure_weight_duration: 15_552_000,
        max_tenure_weight: 4,
        gateway_reward_ratio: 900_000,
        observer_reward_ratio: 100_000,
        missed_observation_penalty_rate: 250_000,
        max_reward_rate: 1_000,
        min_reward_rate: 500,
        reward_decay_start_epoch: 365,
        reward_decay_last_epoch: 547,
        max_consecutive_failures: 30,
        failed_gateway_slash_rate: 1_000_000,
        disable_at: 0,
        bump: 255,
        version: SchemaVersion::new(1, 0, 0),
    }
}

fn epoch(active: u32) -> Epoch {
    Epoch {
        epoch_index: 3,
        start_timestamp: 1_000,
        end_timestamp: 2_000,
        total_eligible_rewards: 1_000_000,
        per_gateway_reward: 90_000,
        per_observer_reward: 10_000,
        reward_rate: 1_000,
        total_composite_weight_lo: 0,
        total_composite_weight_hi: 0,
        hashchain: [0u8; 32],
        active_gateway_count: active,
        distribution_index: 0,
        tally_index: active,
        observer_count: 0,
        name_count: 0,
        observations_submitted: 0,
        rewards_distributed: 0,
        weights_tallied: 1,
        prescriptions_done: 1,
        bump: 255,
        observations_closed: 0,
        failure_counts: [0u16; 3000],
        prescribed_observers: [Pubkey::default(); 50],
        prescribed_observer_gateways: [Pubkey::default(); 50],
        prescribed_names: [[0u8; 32]; 2],
        has_observed: [0u8; 7],
        version_bytes: [1, 0, 0],
        _padding2: [0u8; 2],
    }
}

fn registry(operators: &[u8]) -> GatewayRegistry {
    let mut gateways = vec![GatewaySlot::fresh(Pubkey::default(), 0, GatewaySlot::STATUS_JOINED); 3000];
    for (i, &operator) in operators.iter().enumerate() {
        gateways[i] = GatewaySlot::fresh(key(operator), 0, GatewaySlot::STATUS_JOINED);
        gateways[i].composite_weight = 1;
    }
    GatewayRegistry { authority: key(50), count: operators.len() as u32, _padding: [0u8; 4], gateways }
}

fn account(gateway: Gateway) -> GatewayAccount {
    let (key, _) = gateway_address(&gateway.operator, &program()).unwrap();
    GatewayAccount { key, owned: true, writable: true, gateway: Some(gateway) }
}

fn context(operators: &[u8], balance: u64) -> DistributeEpoch {
    DistributeEpoch {
        epoch_settings: epoch_settings(),
        epoch: epoch(operators.len() as u32),
        registry: registry(operators),
        settings: settings(),
        protocol_token_account: key(54),
        protocol_balance: balance,
        stake_token_account: key(53),
        accounts: operators.iter().map(|&o| account(gateway(o))).collect(),
        program_id: program(),
    }
}

fn pending(full_reward: u64, had_delegation_at_tally: bool) -> PendingDistribution {
    PendingDistribution {
        account: 0,
        full_reward,
        is_leaving: false,
        is_prescribed: false,
        is_observed: false,
        failed: false,
        had_delegation_at_tally,
    }
}

#[test]
fn delegate_share_keyed_off_tally_not_live_stake() {
    let scaled = 1_000_000_000u64;
    let ratio = 1000u16;
    let (operator_reward, delegate_pool) = split_scaled_reward(scaled, ratio, true);
    assert_eq!(operator_reward, 900_000_000, "operator must not capture the delegate share");
    assert_eq!(delegate_pool, 100_000_000, "delegate share must be carved out");
    assert_eq!(operator_reward + delegate_pool, scaled, "split must conserve the reward");
    assert_ne!(operator_reward, scaled, "pre-fix theft value must not recur");
}

#[test]
fn no_delegation_at_tally_gives_operator_everything() {
    let (operator_reward, delegate_pool) = split_scaled_reward(1_000_000_000, 1000, false);
    assert_eq!(operator_reward, 1_000_000_000);
    assert_eq!(delegate_pool, 0);
}

#[test]
fn zero_ratio_gives_operator_everything() {
    let (operator_reward, delegate_pool) = split_scaled_reward(1_000_000_000, 0, true);
    assert_eq!(operator_reward, 1_000_000_000);
    assert_eq!(delegate_pool, 0);
}

#[test]
fn full_ratio_and_rounding() {
    assert_eq!(split_scaled_reward(1_000_000_000, 10_000, true), (0, 1_000_000_000));
    let (op, del) = split_scaled_reward(999, 1000, true);
    assert_eq!(del, 99);
    assert_eq!(op, 900);
    assert_eq!(op + del, 999);
}

#[test]
fn delegate_share_5pct() {
    let (operator_reward, delegate_total) = split_scaled_reward(90_000_000, 500, true);
    assert_eq!(delegate_total, 4_500_000);
    assert_eq!(operator_reward, 85_500_000);
}

#[test]
fn delegate_share_0pct() {
    let (_, delegate_total) = split_scaled_reward(90_000_000, 0, true);
    assert_eq!(delegate_total, 0);
}

#[test]
fn delegate_proportional_split() {
    let mut g = gateway(1);
    g.settings.delegate_reward_share_ratio = 10_000;
    g.total_delegated_stake = 6_000_000_000 + 4_000_000_000;
    let (operator, orphaned) = credit_gateway(&mut g, &pending(4_500_000, true), 4_500_000);
    assert_eq!((operator, orphaned), (0, 0));
    let delegation = |amount: u64| Delegation {
        gateway: key(1),
        delegator: key(2),
        amount,
        start_timestamp: 0,
        reward_debt: 0,
        bump: 0,
        version: SchemaVersion::new(1, 0, 0),
    };
    let mut a = delegation(6_000_000_000);
    let mut b = delegation(4_000_000_000);
    settle_delegate_rewards(&mut g, &mut a);
    settle_delegate_rewards(&mut g, &mut b);
    assert_eq!(a.amount - 6_000_000_000, 2_700_000);
    assert_eq!(b.amount - 4_000_000_000, 1_800_000);
}

#[test]
fn full_reward_by_standing() {
    let reward = |leaving: bool, failed: bool, prescribed: bool, observed: bool| {
        compute_full_reward(90_000, 10_000, 250_000, leaving, failed, prescribed, observed)
    };
    assert_eq!(reward(false, false, false, false), 90_000);
    assert_eq!(reward(false, false, true, true), 100_000);
    assert_eq!(reward(false, false, true, false), 67_500);
    assert_eq!(reward(false, true, true, true), 10_000);
    assert_eq!(reward(false, true, true, false), 0);
    assert_eq!(reward(false, true, false, false), 0);
    assert_eq!(reward(true, false, true, true), 0);
    assert_eq!(compute_full_reward(90_000, 0, 2_000_000, false, false, true, false), 0);
    assert_eq!(compute_full_reward(u64::MAX, 1, 0, false, false, true, true), u64::MAX);
}

#[test]
fn record_counts_epochs() {
    let mut stats = GatewayStats { failed_consecutive: 4, ..GatewayStats::default() };
    let mut p = pending(0, false);
    p.is_prescribed = true;
    p.is_observed = true;
    update_stats(&mut stats, &p);
    assert_eq!(
        stats,
        GatewayStats {
            passed_epochs: 1,
            failed_epochs: 0,
            total_epochs: 1,
            prescribed_epochs: 1,
            observed_epochs: 1,
            failed_consecutive: 0,
            passed_consecutive: 1,
        }
    );
    p.failed = true;
    p.is_observed = false;
    update_stats(&mut stats, &p);
    assert_eq!((stats.failed_epochs, stats.failed_consecutive, stats.passed_consecutive), (1, 1, 0));
    assert_eq!((stats.prescribed_epochs, stats.observed_epochs, stats.total_epochs), (2, 1, 2));
    p.is_leaving = true;
    let before = stats;
    update_stats(&mut stats, &p);
    assert_eq!(stats, before);
    let mut full = GatewayStats { passed_consecutive: 255, total_epochs: u32::MAX, ..before };
    update_stats(&mut full, &pending(0, false));
    assert_eq!((full.passed_consecutive, full.total_epochs), (255, u32::MAX));
}

#[test]
fn rewards_are_paid_in_full() {
    let o = distribute_epoch(context(&[1, 2], 1_000_000), 2_000).unwrap();
    assert_eq!(o.accounts.accounts[0].gateway.as_ref().unwrap().operator_stake, 20_000_090_000);
    assert_eq!(o.accounts.accounts[1].gateway.as_ref().unwrap().operator_stake, 20_000_090_000);
    assert_eq!(o.accounts.settings.total_staked, 180_000);
    assert_eq!(o.accounts.epoch.rewards_distributed, 1);
    assert_eq!(o.accounts.epoch.distribution_index, 2);
    assert_eq!(
        o.transfers,
        vec![TokenTransfer { from: Holder::Treasury, to: Holder::StakePool, amount: 180_000 }]
    );
    assert_eq!(o.event.release_data, release_treasury_data(180_000));
    let event = o.event.event.unwrap();
    assert_eq!((event.epoch_index, event.gateways_processed), (3, 2));
}

#[test]
fn poor_treasury_scales_rewards_down() {
    let o = distribute_epoch(context(&[1, 2], 90_001), 2_000).unwrap();
    assert_eq!(o.accounts.accounts[0].gateway.as_ref().unwrap().operator_stake, 20_000_045_000);
    assert_eq!(o.accounts.settings.total_staked, 90_000);
    assert_eq!(o.transfers[0].amount, 90_001);
}

#[test]
fn batches_go_on_where_the_last_one_stopped() {
    let mut first = context(&[1, 2, 3], 1_000_000);
    first.accounts.truncate(2);
    let o = distribute_epoch(first, 2_000).unwrap();
    assert_eq!(o.accounts.epoch.distribution_index, 2);
    assert_eq!(o.accounts.epoch.rewards_distributed, 0);
    assert!(o.event.event.is_none());
    let mut second = context(&[1, 2, 3], 1_000_000);
    second.epoch = o.accounts.epoch;
    second.accounts = vec![account(gateway(3))];
    let o = distribute_epoch(second, 2_000).unwrap();
    assert_eq!(o.accounts.epoch.rewards_distributed, 1);
    let mut third = context(&[1, 2, 3], 1_000_000);
    third.epoch = o.accounts.epoch;
    assert_eq!(
        distribute_epoch(third, 2_000).err(),
        Some(Refusal::Gar(GarError::RewardsAlreadyDistributed))
    );
}

#[test]
fn share_of_lost_delegates_stays_in_the_treasury() {
    let mut ctx = context(&[1], 1_000_000);
    ctx.registry.gateways[0].delegated_at_tally = 1;
    let o = distribute_epoch(ctx, 2_000).unwrap();
    assert_eq!(o.accounts.accounts[0].gateway.as_ref().unwrap().operator_stake, 20_000_081_000);
    assert_eq!(o.transfers[0].amount, 81_000);

    let mut ctx = context(&[1], 1_000_000);
    ctx.registry.gateways[0].delegated_at_tally = 1;
    ctx.accounts[0].gateway.as_mut().unwrap().total_delegated_stake = 9_000;
    let o = distribute_epoch(ctx, 2_000).unwrap();
    let g = o.accounts.accounts[0].gateway.as_ref().unwrap();
    assert_eq!(g.operator_stake, 20_000_081_000);
    assert_eq!(g.cumulative_reward_per_token, 1_000_000_000_000_000_000);
    assert_eq!(o.transfers[0].amount, 90_000);
}

#[test]
fn leaving_gateway_is_paid_nothing() {
    let mut ctx = context(&[1], 1_000_000);
    {
        let g = ctx.accounts[0].gateway.as_mut().unwrap();
        g.status = GatewayStatus::Leaving;
        g.weights.weights_epoch = 0;
    }
    let o = distribute_epoch(ctx, 2_000).unwrap();
    let g = o.accounts.accounts[0].gateway.as_ref().unwrap();
    assert_eq!(g.operator_stake, 20_000_000_000);
    assert_eq!(g.stats, GatewayStats::default());
    assert!(o.transfers.is_empty());
    assert!(o.event.release_data.is_empty());
}

#[test]
fn failed_and_observing_gateways_are_told_apart() {
    let mut ctx = context(&[1, 2], 1_000_000);
    ctx.epoch.observations_submitted = 3;
    ctx.epoch.failure_counts[0] = 2;
    ctx.epoch.failure_counts[1] = 1;
    ctx.epoch.observer_count = 1;
    ctx.epoch.prescribed_observer_gateways[0] = key(2);
    let p = assess_gateway(
        1,
        &ctx.accounts[1].key,
        &ctx.accounts[1].key,
        ctx.accounts[1].gateway.as_ref().unwrap(),
        &ctx.registry.gateways[1],
        1,
        &ctx.epoch,
        250_000,
    )
    .unwrap();
    assert_eq!((p.full_reward, p.failed, p.is_prescribed, p.is_observed), (67_500, false, true, false));
    ctx.epoch.set_observed(0);
    let o = distribute_epoch(ctx, 2_000).unwrap();
    assert_eq!(o.accounts.accounts[0].gateway.as_ref().unwrap().stats.failed_epochs, 1);
    assert_eq!(o.accounts.accounts[0].gateway.as_ref().unwrap().operator_stake, 20_000_000_000);
    assert_eq!(o.accounts.accounts[1].gateway.as_ref().unwrap().operator_stake, 20_000_100_000);
    assert_eq!(o.transfers[0].amount, 100_000);
}

#[test]
fn distribution_is_refused() {
    let refused = |ctx: DistributeEpoch, now: i64| distribute_epoch(ctx, now).err();
    let gar = |e: GarError| Some(Refusal::Gar(e));
    let base = || context(&[1], 1_000_000);
    let mut ctx = base();
    ctx.protocol_token_account = key(99);
    assert_eq!(refused(ctx, 2_000), gar(GarError::InvalidParameter));
    let mut ctx = base();
    ctx.stake_token_account = key(99);
    assert_eq!(refused(ctx, 2_000), gar(GarError::InvalidParameter));
    let mut ctx = base();
    ctx.epoch.prescriptions_done = 0;
    assert_eq!(refused(ctx, 2_000), gar(GarError::PrescriptionsNotDone));
    assert_eq!(refused(base(), 1_999), gar(GarError::EpochInProgress));
    let mut ctx = base();
    ctx.accounts[0].owned = false;
    assert_eq!(refused(ctx, 2_000), gar(GarError::InvalidGatewayAccount));
    let mut ctx = base();
    ctx.accounts[0].writable = false;
    assert_eq!(refused(ctx, 2_000), gar(GarError::InvalidGatewayAccount));
    let mut ctx = base();
    ctx.accounts[0].gateway = None;
    assert_eq!(refused(ctx, 2_000), gar(GarError::InvalidGatewayAccount));
    let mut ctx = base();
    ctx.accounts[0].key = key(99);
    assert_eq!(refused(ctx, 2_000), gar(GarError::InvalidGatewayAccount));
    let mut ctx = base();
    ctx.registry.gateways[0].address = key(99);
    assert_eq!(refused(ctx, 2_000), gar(GarError::InvalidGatewayAccount));
    let mut ctx = base();
    ctx.accounts[0].gateway.as_mut().unwrap().weights.weights_epoch = 2;
    assert_eq!(refused(ctx, 2_000), gar(GarError::WeightsNotTallied));
    let mut ctx = base();
    ctx.settings.total_staked = u64::MAX;
    assert_eq!(refused(ctx, 2_000), gar(GarError::ArithmeticOverflow));
    let mut ctx = base();
    ctx.registry.gateways[0].address = Pubkey::default();
    ctx.accounts[0].owned = false;
    assert!(distribute_epoch(ctx, 2_000).is_ok());
}

#[test]
fn release_call_is_named_by_its_digest() {
    assert_eq!(&RELEASE_TREASURY_NAME[..], b"global:release_treasury_to_recipient");
    let digest = anchor_lang::solana_program::hash::hash(b"global:release_treasury_to_recipient").to_bytes();
    let mut expected = digest[..8].to_vec();
    expected.extend_from_slice(&0x0102_0304_0506_0708u64.to_le_bytes());
    assert_eq!(release_treasury_data(0x0102_0304_0506_0708), expected);
}

#[test]
fn gateway_that_stands_in_is_paid() {
    // The first slot moved up and is late; the third stands in for it.
    let mut ctx = context(&[9, 2, 4], 1_000_000);
    ctx.registry.gateways[0].start_timestamp = 1_001;
    ctx.registry.gateways[0].composite_weight = 0;
    ctx.epoch = epoch(2);
    ctx.epoch.observations_submitted = 1;
    ctx.epoch.failure_counts[1] = 1;
    ctx.accounts = vec![account(gateway(4)), account(gateway(2))];
    let o = distribute_epoch(ctx, 2_000).unwrap();
    assert_eq!((o.accounts.epoch.distribution_index, o.accounts.epoch.rewards_distributed), (2, 1));
    let passed = |k: usize| o.accounts.accounts[k].gateway.as_ref().unwrap().stats.passed_epochs;
    assert_eq!(passed(0), gateway(4).stats.passed_epochs + 1);
    assert_eq!(passed(1), gateway(2).stats.passed_epochs);
}

#[test]
fn delegates_gain_no_more_together_than_the_pool() {
    let amounts = [1u64, 333_333_333, 666_666_663, 3];
    let mut g = gateway(1);
    g.settings.delegate_reward_share_ratio = 10_000;
    g.total_delegated_stake = amounts.iter().sum();
    let debt = g.cumulative_reward_per_token;
    let mut delegations: Vec<Delegation> = amounts
        .iter()
        .map(|&amount| Delegation {
            gateway: key(1),
            delegator: key(2),
            amount,
            start_timestamp: 0,
            reward_debt: debt,
            bump: 0,
            version: SchemaVersion::new(1, 0, 0),
        })
        .collect();
    let stake = g.total_delegated_stake;
    let pool = 1_000_001u64;
    assert_eq!(credit_gateway(&mut g, &pending(pool, true), pool), (0, 0));
    // Settled in any order, and some of them again.
    for place in [2usize, 0, 1, 2, 3, 1, 0] {
        settle_delegate_rewards(&mut g, &mut delegations[place]);
    }
    let gained: u64 = delegations.iter().zip(amounts).map(|(d, amount)| d.amount - amount).sum();
    assert_eq!(gained, 333_333 + 666_667);
    assert!(gained <= pool);
    assert_eq!(g.total_delegated_stake - stake, gained);
}
