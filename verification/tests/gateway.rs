use ario_gar::addresses::{gateway_address, observer_lookup_address, withdrawal_address};
use ario_gar::error::GarError;
use ario_gar::instructions::allowlist::{
    allow_delegate, disallow_delegate, set_allowlist_enabled, AllowDelegate, DisallowDelegate,
};
use ario_gar::instructions::effects::{Holder, Refusal, TokenTransfer};
use ario_gar::instructions::gateway::{
    join_network, update_gateway_settings, update_observer_address, JoinNetwork, UpdateGatewaySettings,
    UpdateObserverAddress,
};
use ario_gar::instructions::gateway_account::GatewayAccount;
use ario_gar::instructions::gateway_exit::{
    close_observer_lookup_account, finalize_gone, finalize_gone_expiry, leave_network, leave_network_at,
    prune_gateway, FinalizeGone, LeaveNetwork, LookupAccount, NewAccount, PruneGateway,
};
use ario_gar::params::{JoinNetworkParams, UpdateGatewayParams};
use ario_gar::pubkey::Pubkey;
use ario_gar::state::constants::GATEWAY_LEAVE_PERIOD;
use ario_gar::state::{
    EpochSettings, Gateway, GatewayRegistry, GatewaySettings, GatewaySettings2, GatewaySlot, GatewayStats,
    GatewayStatus, GatewayWeights, Protocol, RegistryIndex, SchemaVersion, WithdrawalCounter,
};
use ario_gar::text::is_valid_arweave_id;

const MIN: u64 = 20_000_000_000;

fn key(n: u8) -> Pubkey {
    Pubkey::new_from_array([n; 32])
}

fn program() -> Pubkey {
    key(200)
}

fn gateway(operator: u8, index: u32) -> Gateway {
    Gateway {
        operator: key(operator),
        label: "label".to_string(),
        fqdn: "example.org".to_string(),
        port: 443,
        protocol: Protocol::Https,
        properties: String::new(),
        note: String::new(),
        operator_stake: MIN,
        total_delegated_stake: 0,
        status: GatewayStatus::Joined,
        start_timestamp: 0,
        leave_timestamp: None,
        leave_epoch_duration: 0,
        stats: GatewayStats::default(),
        weights: GatewayWeights::default(),
        settings: GatewaySettings2 {
            allow_delegated_staking: true,
            delegate_reward_share_ratio: 1000,
            min_delegation_amount: 10_000_000,
            allowlist_enabled: false,
        },
        registry_index: RegistryIndex { index, _reserved: 0 },
        observer_address: key(operator + 100),
        cumulative_reward_per_token: 0,
        bump: 255,
        version: SchemaVersion::new(1, 1, 0),
    }
}

fn settings() -> GatewaySettings {
    GatewaySettings {
        authority: key(50),
        mint: key(51),
        min_operator_stake: MIN,
        min_delegate_stake: 10_000_000,
        withdrawal_period: 2_592_000,
        max_expedited_withdrawal_penalty: 500_000,
        min_expedited_withdrawal_penalty: 100_000,
        min_expedited_withdrawal_amount: 1_000_000,
        max_delegates_per_gateway: 10_000,
        migration_active: true,
        migration_authority: key(52),
        stake_token_account: key(53),
        protocol_token_account: key(54),
        arns_program_id: key(55),
        total_staked: 100_000_000_000,
        total_delegated: 0,
        total_withdrawn: 0,
        bump: 255,
        version: SchemaVersion::new(1, 0, 0),
    }
}

fn epoch_settings() -> EpochSettings {
    EpochSettings {
        authority: key(50),
        epoch_duration: 86_400,
        prescribed_observer_count: 50,
        prescribed_name_count: 2,
        min_observer_stake: 0,
        slash_rate: 0,
        enabled: true,
        current_epoch_index: 3,
        genesis_timestamp: 0,
        tenure_weight_duration: 15_552_000,
        max_tenure_weight: 4,
        gateway_reward_ratio: 900_000,
        observer_reward_ratio: 100_000,
        missed_observation_penalty_rate: 250_000,
        max_reward_rate: 1_000,
        min_reward_rate: 500,
        reward_decay_start_epoch: 365,
        reward_decay_last_epoch: 547,
        max_consecutive_failures: 30,
        failed_gateway_slash_rate: 1_000_000,
        disable_at: 0,
        bump: 255,
        version: SchemaVersion::new(1, 0, 0),
    }
}

fn registry(operators: &[u8]) -> GatewayRegistry {
    let mut gateways = vec![GatewaySlot::fresh(Pubkey::default(), 0, GatewaySlot::STATUS_JOINED); 3000];
    for (i, &operator) in operators.iter().enumerate() {
        gateways[i] = GatewaySlot::fresh(key(operator), 0, GatewaySlot::STATUS_JOINED);
        gateways[i].composite_weight = 10;
    }
    GatewayRegistry { authority: key(50), count: operators.len() as u32, _padding: [0u8; 4], gateways }
}

fn join() -> JoinNetwork {
    JoinNetwork {
        registry: registry(&[1]),
        settings: settings(),
        stake_token_account: key(53),
        operator: key(2),
        gateway_bump: 11,
        observer_lookup_bump: 12,
    }
}

fn params() -> JoinNetworkParams {
    JoinNetworkParams {
        operator_stake: MIN,
        label: "two".to_string(),
        fqdn: "two.example.org".to_string(),
        port: 8080,
        protocol: Protocol::Http,
        properties: None,
        note: Some("a note".to_string()),
        allow_delegated_staking: true,
        delegate_reward_share_ratio: 95,
        min_delegate_stake: None,
        observer_address: key(102),
    }
}

#[test]
fn joining_opens_a_gateway() {
    let o = join_network(join(), params(), 77).unwrap();
    let g = &o.accounts.gateway;
    assert_eq!((g.operator, g.observer_address), (key(2), key(102)));
    assert_eq!((g.label.as_str(), g.fqdn.as_str(), g.note.as_str()), ("two", "two.example.org", "a note"));
    assert_eq!((g.operator_stake, g.start_timestamp, g.registry_index.index), (MIN, 77, 1));
    assert_eq!(g.settings.delegate_reward_share_ratio, 9500);
    assert_eq!(g.settings.min_delegation_amount, 10_000_000);
    assert_eq!(g.version, SchemaVersion::new(1, 1, 0));
    assert_eq!(o.accounts.registry.count, 2);
    assert_eq!(o.accounts.registry.gateways[1].address, key(2));
    assert_eq!(o.accounts.registry.gateways[0].address, key(1));
    assert_eq!(o.accounts.settings.total_staked, 120_000_000_000);
    assert_eq!((o.accounts.observer_lookup.gateway, o.accounts.observer_lookup.bump), (key(2), 12));
    assert_eq!(
        o.transfers,
        vec![TokenTransfer { from: Holder::Wallet, to: Holder::StakePool, amount: MIN }]
    );
    assert_eq!((o.event.stake, o.event.fqdn.as_str()), (MIN, "two.example.org"));
}

#[test]
fn joining_is_refused() {
    let refused = |ctx: JoinNetwork, p: JoinNetworkParams| join_network(ctx, p, 0).err();
    let with = |change: fn(&mut JoinNetworkParams)| {
        let mut p = params();
        change(&mut p);
        join_network(join(), p, 0).err()
    };
    let mut ctx = join();
    ctx.stake_token_account = key(9);
    assert_eq!(refused(ctx, params()), Some(GarError::InvalidParameter));
    assert_eq!(with(|p| p.operator_stake = MIN - 1), Some(GarError::InsufficientStake));
    assert_eq!(with(|p| p.label = String::new()), Some(GarError::InvalidLabel));
    assert_eq!(with(|p| p.label = "x".repeat(65)), Some(GarError::InvalidLabel));
    assert_eq!(with(|p| p.label = "\u{e9}".repeat(33)), Some(GarError::InvalidLabel));
    assert_eq!(with(|p| p.label = "\u{e9}".repeat(32)), None);
    assert_eq!(with(|p| p.fqdn = String::new()), Some(GarError::InvalidFqdn));
    assert_eq!(with(|p| p.fqdn = "x".repeat(129)), Some(GarError::InvalidFqdn));
    assert_eq!(with(|p| p.delegate_reward_share_ratio = 96), Some(GarError::InvalidRewardShare));
    assert_eq!(with(|p| p.properties = Some("short".to_string())), Some(GarError::InvalidParameter));
    assert_eq!(with(|p| p.note = Some("x".repeat(257))), Some(GarError::InvalidParameter));
    assert_eq!(with(|p| p.min_delegate_stake = Some(9_999_999)), Some(GarError::DelegationBelowMinimum));
    let mut full = join();
    full.registry.count = 3000;
    assert_eq!(refused(full, params()), Some(GarError::RegistryFull));
    let mut much = join();
    much.settings.total_staked = u64::MAX;
    assert_eq!(refused(much, params()), Some(GarError::ArithmeticOverflow));
}

#[test]
fn arweave_ids_have_43_characters() {
    assert!(is_valid_arweave_id(""));
    assert!(is_valid_arweave_id("abcdefghijklmnopqrstuvwxyz0123456789-_ABCDE"));
    assert!(!is_valid_arweave_id("abcdefghijklmnopqrstuvwxyz0123456789-_ABCD"));
    assert!(!is_valid_arweave_id("abcdefghijklmnopqrstuvwxyz0123456789-_ABCD!"));
}

fn update() -> UpdateGatewaySettings {
    UpdateGatewaySettings { settings: settings(), gateway: gateway(1, 0), operator: key(1) }
}

#[test]
fn only_given_settings_change() {
    let p = UpdateGatewayParams {
        label: Some("new".to_string()),
        min_delegate_stake: Some(20_000_000),
        delegate_reward_share_ratio: Some(7),
        ..UpdateGatewayParams::default()
    };
    let o = update_gateway_settings(update(), p, 5).unwrap();
    let g = &o.accounts.gateway;
    assert_eq!((g.label.as_str(), g.fqdn.as_str(), g.port), ("new", "example.org", 443));
    assert_eq!((g.settings.min_delegation_amount, g.settings.delegate_reward_share_ratio), (20_000_000, 700));
    assert_eq!(o.event.fields_changed, 1 | 256 | 512);
    let o = update_gateway_settings(update(), UpdateGatewayParams::default(), 5).unwrap();
    assert_eq!(o.event.fields_changed, 0);
    let all = UpdateGatewayParams {
        label: Some("a".to_string()),
        fqdn: Some("b".to_string()),
        port: Some(1),
        protocol: Some(Protocol::Http),
        properties: Some(String::new()),
        note: Some("c".to_string()),
        allow_delegated_staking: Some(false),
        delegate_reward_share_ratio: Some(0),
        min_delegate_stake: Some(10_000_000),
    };
    assert_eq!(update_gateway_settings(update(), all, 5).unwrap().event.fields_changed, 1023 - 64);
}

#[test]
fn settings_change_is_refused() {
    let with = |change: fn(&mut UpdateGatewayParams)| {
        let mut p = UpdateGatewayParams::default();
        change(&mut p);
        update_gateway_settings(update(), p, 0).err()
    };
    assert_eq!(with(|p| p.label = Some(String::new())), Some(GarError::InvalidLabel));
    assert_eq!(with(|p| p.fqdn = Some("x".repeat(129))), Some(GarError::InvalidFqdn));
    assert_eq!(with(|p| p.properties = Some("?".repeat(43))), Some(GarError::InvalidParameter));
    assert_eq!(with(|p| p.note = Some("x".repeat(257))), Some(GarError::InvalidParameter));
    assert_eq!(with(|p| p.delegate_reward_share_ratio = Some(96)), Some(GarError::InvalidRewardShare));
    assert_eq!(with(|p| p.min_delegate_stake = Some(1)), Some(GarError::DelegationBelowMinimum));
    let mut ctx = update();
    ctx.operator = key(9);
    assert_eq!(
        update_gateway_settings(ctx, UpdateGatewayParams::default(), 0).err(),
        Some(GarError::NotOperator)
    );
    let mut ctx = update();
    ctx.gateway.status = GatewayStatus::Leaving;
    assert_eq!(
        update_gateway_settings(ctx, UpdateGatewayParams::default(), 0).err(),
        Some(GarError::GatewayLeaving)
    );
}

#[test]
fn observer_is_replaced() {
    let ctx = || UpdateObserverAddress { gateway: gateway(1, 0), operator: key(1), new_observer_lookup_bump: 3 };
    let o = update_observer_address(ctx(), key(77), 4).unwrap();
    assert_eq!(o.accounts.gateway.observer_address, key(77));
    assert_eq!((o.accounts.new_observer_lookup.gateway, o.accounts.new_observer_lookup.bump), (key(1), 3));
    assert_eq!(o.event.new_observer, key(77));
    assert_eq!(update_observer_address(ctx(), key(101), 4).err(), Some(GarError::InvalidParameter));
    let mut other = ctx();
    other.operator = key(9);
    assert_eq!(update_observer_address(other, key(77), 4).err(), Some(GarError::NotOperator));
    let mut leaving = ctx();
    leaving.gateway.status = GatewayStatus::Leaving;
    assert_eq!(update_observer_address(leaving, key(77), 4).err(), Some(GarError::GatewayLeaving));
}

#[test]
fn allowlist_takes_delegates_on_and_off() {
    let ctx = || AllowDelegate {
        gateway: gateway(1, 0),
        delegate: key(5),
        operator: key(1),
        allowlist_entry_bump: 9,
    };
    let (entry, event) = allow_delegate(ctx(), 8).unwrap();
    assert_eq!((entry.gateway, entry.delegate, entry.added_at, entry.bump), (key(1), key(5), 8, 9));
    assert!(event.allowed);
    let mut other = ctx();
    other.operator = key(9);
    assert_eq!(allow_delegate(other, 8).err(), Some(GarError::NotOperator));
    let off = DisallowDelegate { gateway: gateway(1, 0), delegate: key(5), operator: key(1) };
    assert!(!disallow_delegate(off, 8).unwrap().allowed);
    let other = DisallowDelegate { gateway: gateway(1, 0), delegate: key(5), operator: key(9) };
    assert_eq!(disallow_delegate(other, 8).err(), Some(GarError::NotOperator));
    let (after, event) = set_allowlist_enabled(update(), true, 8).unwrap();
    assert!(after.gateway.settings.allowlist_enabled && event.enabled);
    let mut other = update();
    other.operator = key(9);
    assert_eq!(set_allowlist_enabled(other, true, 8).err(), Some(GarError::NotOperator));
}

fn counter(next_id: u64) -> WithdrawalCounter {
    WithdrawalCounter { owner: Pubkey::default(), next_id, bump: 0, version: SchemaVersion::new(0, 0, 0) }
}

fn leave(stake: u64) -> LeaveNetwork {
    let mut g = gateway(1, 0);
    g.operator_stake = stake;
    LeaveNetwork {
        registry: registry(&[1, 2, 3]),
        settings: settings(),
        gateway: g,
        epoch_settings: epoch_settings(),
        withdrawal_counter: counter(0),
        withdrawal_counter_bump: 21,
        withdrawal_bump: 22,
        excess_withdrawal: Some(NewAccount {
            key: withdrawal_address(&key(1), 1, &program()).unwrap().0,
            empty: true,
        }),
        observer_lookup: None,
        operator: key(1),
        program_id: program(),
    }
}

#[test]
fn leaving_splits_the_stake() {
    let o = leave_network(leave(MIN + 5_000), 1_000).unwrap();
    let a = &o.accounts;
    assert_eq!((a.withdrawal.amount, a.withdrawal.is_protected, a.withdrawal.is_exit_vault), (MIN, true, true));
    assert_eq!(a.withdrawal.available_at, 1_000 + GATEWAY_LEAVE_PERIOD);
    let excess = a.excess_withdrawal.unwrap();
    assert_eq!((excess.amount, excess.is_protected, excess.withdrawal_id), (5_000, false, 1));
    assert_eq!(excess.available_at, 1_000 + 2_592_000);
    assert_eq!(excess.bump, withdrawal_address(&key(1), 1, &program()).unwrap().1);
    assert_eq!((a.withdrawal_counter.next_id, a.withdrawal_counter.bump), (2, 21));
    assert_eq!(a.withdrawal_counter.owner, key(1));
    assert_eq!((a.gateway.operator_stake, a.gateway.status), (0, GatewayStatus::Leaving));
    assert_eq!((a.gateway.leave_timestamp, a.gateway.leave_epoch_duration), (Some(1_000), 86_400));
    assert_eq!(a.registry.count, 3);
    assert_eq!(a.registry.gateways[0].address, key(1));
    assert_eq!(a.registry.gateways[0].composite_weight, 0);
    assert_eq!(a.registry.gateways[0].status, GatewaySlot::STATUS_LEAVING);
    assert_eq!(a.registry.gateways[1].composite_weight, 10);
    assert_eq!(a.settings.total_staked, 100_000_000_000 - MIN - 5_000);
    assert_eq!(a.settings.total_withdrawn, MIN + 5_000);
}

#[test]
fn leaving_without_excess_opens_one_vault() {
    let mut ctx = leave(MIN);
    ctx.excess_withdrawal = None;
    let o = leave_network(ctx, 1_000).unwrap();
    assert!(o.accounts.excess_withdrawal.is_none());
    assert_eq!(o.accounts.withdrawal_counter.next_id, 1);
    let o = leave_network(leave(0), 1_000).unwrap();
    assert_eq!((o.accounts.withdrawal.is_protected, o.accounts.withdrawal.available_at), (false, 1_000));
}

#[test]
fn observer_entry_is_closed_if_it_is_the_right_one() {
    let mut ctx = leave(MIN);
    let address = observer_lookup_address(&key(101), &program()).unwrap().0;
    ctx.observer_lookup = Some(LookupAccount { key: address, writable: true });
    assert!(leave_network(ctx.clone(), 0).unwrap().accounts.close_observer_lookup);
    ctx.observer_lookup = Some(LookupAccount { key: address, writable: false });
    assert!(!leave_network(ctx.clone(), 0).unwrap().accounts.close_observer_lookup);
    ctx.observer_lookup = Some(LookupAccount { key: key(3), writable: true });
    assert!(!leave_network(ctx, 0).unwrap().accounts.close_observer_lookup);
    assert_eq!(close_observer_lookup_account(5, 7), Ok((12, 0)));
    assert_eq!(close_observer_lookup_account(u64::MAX, 1), Err(GarError::ArithmeticOverflow));
}

#[test]
fn leaving_is_refused() {
    let refused = |ctx: LeaveNetwork, now: i64| leave_network(ctx, now).err();
    let gar = |e: GarError| Some(Refusal::Gar(e));
    let mut ctx = leave(MIN);
    ctx.operator = key(9);
    assert_eq!(refused(ctx, 0), gar(GarError::NotOperator));
    assert_eq!(refused(leave(MIN), i64::MAX), gar(GarError::ArithmeticOverflow));
    let mut ctx = leave(MIN);
    ctx.gateway.status = GatewayStatus::Leaving;
    assert_eq!(refused(ctx, 0), gar(GarError::GatewayNotJoined));
    let mut ctx = leave(MIN + 1);
    ctx.excess_withdrawal = None;
    assert_eq!(refused(ctx, 0), gar(GarError::MissingExcessWithdrawal));
    let mut ctx = leave(MIN + 1);
    ctx.excess_withdrawal = Some(NewAccount { key: key(9), empty: true });
    assert_eq!(refused(ctx, 0), gar(GarError::InvalidExcessWithdrawalPda));
    let mut ctx = leave(MIN + 1);
    ctx.excess_withdrawal.as_mut().unwrap().empty = false;
    assert_eq!(refused(ctx, 0), gar(GarError::InvalidParameter));
    let mut ctx = leave(MIN);
    ctx.gateway.registry_index.index = 1;
    assert_eq!(refused(ctx, 0), gar(GarError::InvalidParameter));
    let mut ctx = leave(MIN);
    ctx.withdrawal_counter = counter(u64::MAX);
    assert_eq!(refused(ctx, 0), gar(GarError::ArithmeticOverflow));
    let mut ctx = leave(MIN);
    ctx.settings.total_withdrawn = u64::MAX;
    assert_eq!(refused(ctx, 0), gar(GarError::ArithmeticOverflow));
    assert_eq!(leave_network_at(leave(MIN + 1), 0, None, None).err(), Some(Refusal::NoProgramAddress));
}

fn prune(stake: u64) -> PruneGateway {
    let l = leave(stake);
    let mut g = l.gateway;
    g.stats.failed_consecutive = 30;
    PruneGateway {
        settings: l.settings,
        epoch_settings: l.epoch_settings,
        registry: l.registry,
        gateway: g,
        withdrawal_counter: l.withdrawal_counter,
        withdrawal_counter_bump: 21,
        withdrawal_bump: 22,
        excess_withdrawal: l.excess_withdrawal,
        observer_lookup: None,
        stake_token_account: key(53),
        protocol_token_account: key(54),
        payer: key(70),
        program_id: program(),
    }
}

#[test]
fn pruning_slashes_the_minimum() {
    let o = prune_gateway(prune(MIN + MIN + 300), 1_000).unwrap();
    assert_eq!(
        o.transfers,
        vec![TokenTransfer { from: Holder::StakePool, to: Holder::Treasury, amount: MIN }]
    );
    assert_eq!((o.event.slashed_amount, o.event.pruner), (MIN, key(70)));
    assert_eq!(o.accounts.withdrawal.amount, MIN);
    let excess = o.accounts.excess_withdrawal.unwrap();
    assert_eq!((excess.amount, excess.available_at), (300, 1_000 + GATEWAY_LEAVE_PERIOD));
    assert_eq!(o.accounts.settings.total_withdrawn, MIN + 300);
    assert_eq!(o.accounts.settings.total_staked, 100_000_000_000 - 2 * MIN - 300);
    let o = prune_gateway(prune(7), 1_000).unwrap();
    assert_eq!((o.event.slashed_amount, o.accounts.withdrawal.amount), (7, 0));
    assert!(o.accounts.withdrawal.is_exit_vault && !o.accounts.withdrawal.is_protected);
}

#[test]
fn pruning_is_refused() {
    let refused = |ctx: PruneGateway, now: i64| prune_gateway(ctx, now).err();
    let gar = |e: GarError| Some(Refusal::Gar(e));
    let mut ctx = prune(MIN);
    ctx.stake_token_account = key(9);
    assert_eq!(refused(ctx, 0), gar(GarError::InvalidParameter));
    let mut ctx = prune(MIN);
    ctx.protocol_token_account = key(9);
    assert_eq!(refused(ctx, 0), gar(GarError::InvalidParameter));
    let mut ctx = prune(MIN);
    ctx.gateway.status = GatewayStatus::Leaving;
    assert_eq!(refused(ctx, 0), gar(GarError::GatewayNotJoined));
    let mut ctx = prune(MIN);
    ctx.gateway.stats.failed_consecutive = 29;
    assert_eq!(refused(ctx, 0), gar(GarError::GatewayNotEligible));
    assert_eq!(refused(prune(MIN), i64::MAX), gar(GarError::ArithmeticOverflow));
    let mut ctx = prune(3 * MIN);
    ctx.excess_withdrawal = None;
    assert_eq!(refused(ctx, 0), gar(GarError::MissingExcessWithdrawal));
    let mut ctx = prune(MIN);
    ctx.registry.count = 0;
    assert_eq!(refused(ctx, 0), gar(GarError::InvalidParameter));
}

const WINDOW: i64 = GATEWAY_LEAVE_PERIOD + 7 * 86_400;

fn finalize(index: u32) -> FinalizeGone {
    let mut g = gateway(index as u8 + 1, index);
    g.status = GatewayStatus::Leaving;
    g.leave_timestamp = Some(1_000);
    g.leave_epoch_duration = 86_400;
    g.operator_stake = 0;
    FinalizeGone {
        gateway: g,
        registry: registry(&[1, 2, 3]),
        epoch_settings: epoch_settings(),
        swapped: Some(GatewayAccount {
            key: gateway_address(&key(3), &program()).unwrap().0,
            owned: true,
            writable: true,
            gateway: Some(gateway(3, 2)),
        }),
        caller: key(70),
        program_id: program(),
    }
}

#[test]
fn freed_slot_goes_to_the_last_gateway() {
    let o = finalize_gone(finalize(0), 1_000 + WINDOW).unwrap();
    let a = &o.accounts;
    assert_eq!(a.gateway.status, GatewayStatus::Gone);
    assert_eq!(a.registry.count, 2);
    assert_eq!(a.registry.gateways[0].address, key(3));
    assert_eq!(a.registry.gateways[1].address, key(2));
    assert_eq!(a.registry.gateways[2].address, Pubkey::default());
    assert_eq!(a.swapped.as_ref().unwrap().gateway.as_ref().unwrap().registry_index.index, 0);
    assert_eq!((o.event.operator, o.event.pruner), (key(1), key(70)));
    let mut last = finalize(2);
    last.swapped = None;
    let o = finalize_gone(last, 1_000 + WINDOW).unwrap();
    assert_eq!(o.accounts.registry.count, 2);
    assert_eq!(o.accounts.registry.gateways[0].address, key(1));
}

#[test]
fn expiry_takes_the_longer_epoch() {
    let g = finalize(0).gateway;
    assert_eq!(finalize_gone_expiry(&g, 60), Ok(1_000 + WINDOW));
    assert_eq!(finalize_gone_expiry(&g, 100_000), Ok(1_000 + GATEWAY_LEAVE_PERIOD + 700_000));
    assert_eq!(finalize_gone_expiry(&g, i64::MAX), Ok(i64::MAX));
    assert_eq!(finalize_gone_expiry(&gateway(1, 0), 60), Err(GarError::GatewayNotLeaving));
}

#[test]
fn finalizing_is_refused() {
    let now = 1_000 + WINDOW;
    let refused = |ctx: FinalizeGone, now: i64| finalize_gone(ctx, now).err();
    let gar = |e: GarError| Some(Refusal::Gar(e));
    let mut ctx = finalize(0);
    ctx.gateway.status = GatewayStatus::Joined;
    assert_eq!(refused(ctx, now), gar(GarError::GatewayNotLeaving));
    let mut ctx = finalize(0);
    ctx.gateway.leave_timestamp = None;
    assert_eq!(refused(ctx, now), gar(GarError::GatewayNotLeaving));
    assert_eq!(refused(finalize(0), now - 1), gar(GarError::LeaveWindowNotExpired));
    let mut ctx = finalize(0);
    ctx.gateway.total_delegated_stake = 1;
    assert_eq!(refused(ctx, now), gar(GarError::DelegationsOutstanding));
    let mut ctx = finalize(0);
    ctx.registry.gateways[0].address = key(9);
    assert_eq!(refused(ctx, now), gar(GarError::InvalidParameter));
    let mut ctx = finalize(0);
    ctx.swapped = None;
    assert_eq!(refused(ctx, now), gar(GarError::InvalidParameter));
    let mut ctx = finalize(0);
    ctx.swapped.as_mut().unwrap().writable = false;
    assert_eq!(refused(ctx, now), gar(GarError::InvalidParameter));
    let mut ctx = finalize(0);
    ctx.swapped.as_mut().unwrap().owned = false;
    assert_eq!(refused(ctx, now), gar(GarError::InvalidParameter));
    let mut ctx = finalize(0);
    ctx.swapped.as_mut().unwrap().key = key(9);
    assert_eq!(refused(ctx, now), gar(GarError::InvalidParameter));
    let mut ctx = finalize(0);
    ctx.swapped.as_mut().unwrap().gateway = None;
    assert_eq!(refused(ctx, now), gar(GarError::InvalidParameter));
}
