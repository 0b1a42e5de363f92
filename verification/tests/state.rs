use anchor_lang::AnchorSerialize;
use ario_gar::pubkey::Pubkey;
use ario_gar::state::{read_name_entry, read_name_registry_header};
use ario_gar::state::{
    compute_reward_rate, settle_delegate_rewards, AllowlistEntry, Delegation, Epoch, Gateway, GatewayRegistry,
    GatewaySettings2, GatewaySlot, GatewayStats, GatewayStatus, GatewayWeights, Protocol, RedelegationRecord,
    RegistryIndex, SchemaVersion, Withdrawal, WithdrawalCounter,
};

const RATE_SCALE: u64 = 1_000_000;

fn default_stats() -> GatewayStats {
    GatewayStats {
        passed_epochs: 0,
        failed_epochs: 0,
        total_epochs: 0,
        prescribed_epochs: 0,
        observed_epochs: 0,
        failed_consecutive: 0,
        passed_consecutive: 0,
    }
}

fn unversioned() -> SchemaVersion {
    SchemaVersion::new(0, 0, 0)
}

#[test]
fn stake_weight_at_minimum() {
    let w = GatewayWeights::compute(
        10_000_000_000,
        10_000_000_000,
        0,
        100,
        180 * 86_400,
        4,
        &default_stats(),
        RATE_SCALE,
    );
    assert_eq!(w.stake_weight, 1_000_000);
}

#[test]
fn stake_weight_2x_minimum() {
    let w = GatewayWeights::compute(
        40_000_000_000,
        20_000_000_000,
        0,
        100,
        180 * 86_400,
        4,
        &default_stats(),
        RATE_SCALE,
    );
    assert_eq!(w.stake_weight, 2_000_000);
}

#[test]
fn tenure_weight_zero_time() {
    let w = GatewayWeights::compute(
        10_000_000_000,
        10_000_000_000,
        100,
        100,
        15_552_000,
        4,
        &default_stats(),
        RATE_SCALE,
    );
    assert_eq!(w.tenure_weight, 0);
}

#[test]
fn tenure_weight_at_duration() {
    let duration = 180 * 86_400i64;
    let w = GatewayWeights::compute(
        10_000_000_000,
        10_000_000_000,
        0,
        duration,
        duration,
        4,
        &default_stats(),
        RATE_SCALE,
    );
    assert_eq!(w.tenure_weight, 1_000_000);
}

#[test]
fn tenure_weight_capped_at_max() {
    let duration = 180 * 86_400i64;
    let w = GatewayWeights::compute(
        10_000_000_000,
        10_000_000_000,
        0,
        duration * 5,
        duration,
        4,
        &default_stats(),
        RATE_SCALE,
    );
    assert_eq!(w.tenure_weight, 4_000_000);
}

#[test]
fn gateway_perf_ratio_no_epochs() {
    let stats = default_stats();
    let w =
        GatewayWeights::compute(10_000_000_000, 10_000_000_000, 0, 100, 180 * 86_400, 4, &stats, RATE_SCALE);
    assert_eq!(w.gateway_performance_ratio, 1_000_000);
}

#[test]
fn gateway_perf_ratio_3_of_10() {
    let stats = GatewayStats { passed_epochs: 3, total_epochs: 10, ..default_stats() };
    let w =
        GatewayWeights::compute(10_000_000_000, 10_000_000_000, 0, 100, 180 * 86_400, 4, &stats, RATE_SCALE);
    assert_eq!(w.gateway_performance_ratio, 363_636);
}

#[test]
fn composite_weight_full() {
    let stats = GatewayStats {
        passed_epochs: 1,
        total_epochs: 3,
        prescribed_epochs: 3,
        observed_epochs: 1,
        ..default_stats()
    };
    let duration = 180 * 86_400i64;
    let w = GatewayWeights::compute(
        10_000_000_000,
        10_000_000_000,
        0,
        duration,
        duration,
        4,
        &stats,
        RATE_SCALE,
    );
    assert_eq!(w.stake_weight, 1_000_000);
    assert_eq!(w.tenure_weight, 1_000_000);
    assert_eq!(w.gateway_performance_ratio, 500_000);
    assert_eq!(w.observer_performance_ratio, 500_000);
    assert_eq!(w.composite_weight, 250_000);
}

#[test]
fn reward_rate_before_decay_epoch_1() {
    let rate = compute_reward_rate(1, 1_000, 500, 365, 547);
    assert_eq!(rate, 1_000);
}

#[test]
fn reward_rate_at_decay_start_epoch_365() {
    let rate = compute_reward_rate(365, 1_000, 500, 365, 547);
    assert_eq!(rate, 1_000);
}

#[test]
fn reward_rate_epoch_366_minimal_decay() {
    let rate = compute_reward_rate(366, 1_000, 500, 365, 547);
    assert_eq!(rate, 998);
}

#[test]
fn reward_rate_decay_midpoint_epoch_456() {
    let rate = compute_reward_rate(456, 1_000, 500, 365, 547);
    assert_eq!(rate, 750);
}

#[test]
fn reward_rate_decay_end_epoch_547() {
    let rate = compute_reward_rate(547, 1_000, 500, 365, 547);
    assert_eq!(rate, 500);
}

#[test]
fn reward_rate_after_decay_epoch_730() {
    let rate = compute_reward_rate(730, 1_000, 500, 365, 547);
    assert_eq!(rate, 500);
}

#[test]
fn reward_rate_without_decay_period() {
    assert_eq!(compute_reward_rate(365, 1_000, 500, 365, 365), 1_000);
    assert_eq!(compute_reward_rate(366, 1_000, 500, 365, 365), 500);
    assert_eq!(compute_reward_rate(400, 300, 500, 365, 547), 300);
}

fn make_redelegation(count: u32, fee_reset_at: i64) -> RedelegationRecord {
    RedelegationRecord {
        delegator: Pubkey::default(),
        redelegation_count: count,
        last_redelegation_at: 0,
        fee_reset_at,
        bump: 0,
        version: unversioned(),
    }
}

#[test]
fn first_redelegation_free() {
    let record = make_redelegation(0, 1_000_000);
    let fee = record.get_fee_rate(100, RATE_SCALE);
    assert_eq!(fee, 0);
}

#[test]
fn second_redelegation_10pct() {
    let record = make_redelegation(1, 1_000_000);
    let fee = record.get_fee_rate(100, RATE_SCALE);
    assert_eq!(fee, 100_000);
}

#[test]
fn third_redelegation_20pct() {
    let record = make_redelegation(2, 1_000_000);
    let fee = record.get_fee_rate(100, RATE_SCALE);
    assert_eq!(fee, 200_000);
}

#[test]
fn seventh_redelegation_capped_60pct() {
    let record = make_redelegation(7, 1_000_000);
    let fee = record.get_fee_rate(100, RATE_SCALE);
    assert_eq!(fee, 600_000);
}

#[test]
fn redelegation_fee_resets_after_7_days() {
    let record = make_redelegation(5, 50);
    let fee = record.get_fee_rate(100, RATE_SCALE);
    assert_eq!(fee, 0);
}

#[test]
fn redelegation_10th_capped_at_60pct() {
    let record = make_redelegation(10, 1_000_000);
    let fee = record.get_fee_rate(100, RATE_SCALE);
    assert_eq!(fee, 600_000);
}

#[test]
fn gateway_stats_size_correct() {
    assert_eq!(GatewayStats::SIZE, 22);
}

#[test]
fn gateway_weights_size_correct() {
    assert_eq!(GatewayWeights::SIZE, 56);
}

#[test]
fn gateway_weights_size_includes_epoch() {
    assert_eq!(GatewayWeights::SIZE, 56);
}

#[test]
fn gateway_settings2_size_correct() {
    assert_eq!(GatewaySettings2::SIZE, 12);
}

#[test]
fn registry_index_size_correct() {
    assert_eq!(RegistryIndex::SIZE, 5);
}

#[test]
fn redelegation_fee_reset_interval() {
    assert_eq!(RedelegationRecord::FEE_RESET_INTERVAL, 7 * 86_400);
}

#[test]
fn epoch_size_correct() {
    assert_eq!(Epoch::SIZE, 9400);
}

#[test]
fn observer_perf_ratio_1_of_3() {
    let stats = GatewayStats { prescribed_epochs: 3, observed_epochs: 1, ..default_stats() };
    let w =
        GatewayWeights::compute(10_000_000_000, 10_000_000_000, 0, 100, 180 * 86_400, 4, &stats, RATE_SCALE);
    assert_eq!(w.observer_performance_ratio, 500_000);
}

#[test]
fn observer_perf_ratio_all_observed() {
    let stats = GatewayStats { prescribed_epochs: 10, observed_epochs: 10, ..default_stats() };
    let w =
        GatewayWeights::compute(10_000_000_000, 10_000_000_000, 0, 100, 180 * 86_400, 4, &stats, RATE_SCALE);
    assert_eq!(w.observer_performance_ratio, 1_000_000);
}

#[test]
fn zero_stake_has_no_weight() {
    let stats = GatewayStats {
        passed_epochs: 10,
        total_epochs: 10,
        prescribed_epochs: 10,
        observed_epochs: 10,
        passed_consecutive: 10,
        ..default_stats()
    };
    let w = GatewayWeights::compute(0, 20_000_000_000, 0, 2_000_000_000, 31_536_000, 4, &stats, RATE_SCALE);
    assert_eq!(w.composite_weight, 0);
    assert_eq!(w.tenure_weight, 4_000_000);
}

#[test]
fn weight_that_does_not_fit_counts_as_none() {
    let w = GatewayWeights::compute(u64::MAX, 0, 0, i64::MAX, 1, u64::MAX, &default_stats(), u64::MAX);
    assert_eq!(w.stake_weight, u64::MAX);
    assert_eq!(w.composite_weight, 0);
}

#[test]
fn just_joined_counts_one_second() {
    let w = GatewayWeights::compute(
        10_000_000_000,
        10_000_000_000,
        100,
        50,
        1_000,
        4,
        &default_stats(),
        RATE_SCALE,
    );
    assert_eq!(w.tenure_weight, 1_000);
    let none = GatewayWeights::compute(1, 1, 0, 100, 0, 4, &default_stats(), RATE_SCALE);
    assert_eq!(none.tenure_weight, 0);
}

#[test]
fn normalized_weight_single_gateway() {
    let composite: u128 = 500_000;
    let total: u128 = 500_000;
    let normalized = composite * RATE_SCALE as u128 / total;
    assert_eq!(normalized as u64, 1_000_000);
}

#[test]
fn normalized_weight_two_equal_gateways() {
    let composite: u128 = 500_000;
    let total: u128 = 1_000_000;
    let normalized = composite * RATE_SCALE as u128 / total;
    assert_eq!(normalized as u64, 500_000);
}

#[test]
fn normalized_weight_unequal_gateways() {
    let total: u128 = 1_000_000;
    let a_norm = 750_000u128 * RATE_SCALE as u128 / total;
    let b_norm = 250_000u128 * RATE_SCALE as u128 / total;
    assert_eq!(a_norm as u64, 750_000);
    assert_eq!(b_norm as u64, 250_000);
}

#[test]
fn normalized_weight_zero_total() {
    let total: u128 = 0;
    assert_eq!(total, 0);
}

#[test]
fn normalized_weights_sum_to_scale() {
    let weights: [u128; 5] = [100_000, 200_000, 300_000, 150_000, 250_000];
    let total: u128 = weights.iter().sum();
    assert_eq!(total, 1_000_000);
    let normalized: Vec<u64> = weights.iter().map(|w| (w * RATE_SCALE as u128 / total) as u64).collect();
    let sum: u64 = normalized.iter().sum();
    assert_eq!(sum, 1_000_000);
}

#[test]
fn withdrawal_size_correct() {
    assert_eq!(Withdrawal::SIZE, 108);
}

#[test]
fn withdrawal_counter_size_correct() {
    assert_eq!(WithdrawalCounter::SIZE, 49);
}

#[test]
fn withdrawal_size_constant_matches_layout() {
    assert_eq!(Withdrawal::SIZE, 8 + 32 + 8 + 32 + 8 + 8 + 8 + 1 + 1 + 1 + 1);
    assert_eq!(Withdrawal::SIZE, 108);
}

fn make_gateway(cumulative_reward_per_token: u128) -> Gateway {
    Gateway {
        operator: Pubkey::default(),
        label: String::new(),
        fqdn: String::new(),
        port: 443,
        protocol: Protocol::Https,
        properties: String::new(),
        note: String::new(),
        operator_stake: 10_000_000_000,
        total_delegated_stake: 100_000_000,
        status: GatewayStatus::Joined,
        start_timestamp: 0,
        leave_timestamp: None,
        leave_epoch_duration: 0,
        stats: GatewayStats::default(),
        weights: GatewayWeights::default(),
        settings: GatewaySettings2 {
            allow_delegated_staking: true,
            delegate_reward_share_ratio: 500,
            min_delegation_amount: 10_000_000,
            allowlist_enabled: false,
        },
        registry_index: RegistryIndex::default(),
        observer_address: Pubkey::default(),
        cumulative_reward_per_token,
        bump: 0,
        version: unversioned(),
    }
}

fn make_delegation(amount: u64, reward_debt: u128) -> Delegation {
    Delegation {
        gateway: Pubkey::default(),
        delegator: Pubkey::default(),
        amount,
        start_timestamp: 0,
        reward_debt,
        bump: 0,
        version: unversioned(),
    }
}

#[test]
fn settle_no_pending_rewards() {
    let mut gateway = make_gateway(1_000_000_000_000_000_000);
    let mut delegation = make_delegation(50_000_000, 1_000_000_000_000_000_000);
    settle_delegate_rewards(&mut gateway, &mut delegation);
    assert_eq!(delegation.amount, 50_000_000);
}

#[test]
fn settle_with_pending_rewards() {
    let mut gateway = make_gateway(2_000_000_000_000_000_000);
    let mut delegation = make_delegation(100_000_000, 1_000_000_000_000_000_000);
    let old_total = gateway.total_delegated_stake;
    settle_delegate_rewards(&mut gateway, &mut delegation);
    assert_eq!(delegation.amount, 200_000_000);
    assert_eq!(delegation.reward_debt, 2_000_000_000_000_000_000);
    assert_eq!(gateway.total_delegated_stake, old_total + 100_000_000);
}

#[test]
fn settling_twice_is_settling_once() {
    let mut gateway = make_gateway(1_500_000_000_000_000_000);
    let mut delegation = make_delegation(100_000_001, 0);
    settle_delegate_rewards(&mut gateway, &mut delegation);
    assert_eq!(delegation.amount, 250_000_002);
    let total = gateway.total_delegated_stake;
    settle_delegate_rewards(&mut gateway, &mut delegation);
    assert_eq!(delegation.amount, 250_000_002);
    assert_eq!(gateway.total_delegated_stake, total);
}

#[test]
fn settling_beyond_128_bits_keeps_the_precision() {
    let mut gateway = make_gateway(100_000_000_000_000_000_000_000);
    gateway.total_delegated_stake = 0;
    let mut delegation = make_delegation(4_000_000_000_000_000, 0);
    settle_delegate_rewards(&mut gateway, &mut delegation);
    assert_eq!(delegation.amount, u64::MAX);
    assert_eq!(gateway.total_delegated_stake, u64::MAX);

    let mut gateway = make_gateway(u128::MAX);
    let mut delegation = make_delegation(3, u128::MAX - 1_500_000_000_000_000_000);
    settle_delegate_rewards(&mut gateway, &mut delegation);
    assert_eq!(delegation.amount, 3 + 4);
}

fn make_epoch() -> Epoch {
    Epoch {
        epoch_index: 0,
        start_timestamp: 0,
        end_timestamp: 86_400,
        total_eligible_rewards: 0,
        per_gateway_reward: 0,
        per_observer_reward: 0,
        reward_rate: 0,
        total_composite_weight_lo: 0,
        total_composite_weight_hi: 0,
        hashchain: [0u8; 32],
        active_gateway_count: 0,
        distribution_index: 0,
        tally_index: 0,
        observer_count: 0,
        name_count: 0,
        observations_submitted: 0,
        rewards_distributed: 0,
        weights_tallied: 0,
        prescriptions_done: 0,
        bump: 0,
        observations_closed: 0,
        failure_counts: [0u16; 3000],
        prescribed_observers: [Pubkey::default(); 50],
        prescribed_observer_gateways: [Pubkey::default(); 50],
        prescribed_names: [[0u8; 32]; 2],
        has_observed: [0u8; 7],
        version_bytes: [1, 0, 0],
        _padding2: [0u8; 2],
    }
}

#[test]
fn epoch_composite_weight_roundtrip() {
    let lo: u64 = 0xFFFF_FFFF_FFFF_FFFF;
    let hi: u64 = 0x0000_0000_0000_0001;
    let mut epoch = make_epoch();
    epoch.total_composite_weight_lo = lo;
    epoch.total_composite_weight_hi = hi;
    let val = epoch.total_composite_weight();
    assert_eq!(val, u64::MAX as u128 + (1u128 << 64));
    let mut other = make_epoch();
    other.set_total_composite_weight(val);
    assert_eq!(other.total_composite_weight_lo, lo);
    assert_eq!(other.total_composite_weight_hi, hi);
    other.add_composite_weight(1);
    assert_eq!(other.total_composite_weight(), val + 1);
    other.set_total_composite_weight(u128::MAX);
    other.add_composite_weight(7);
    assert_eq!(other.total_composite_weight(), u128::MAX);
}

#[test]
fn observed_bits_are_independent() {
    let mut epoch = make_epoch();
    epoch.set_observed(0);
    epoch.set_observed(9);
    epoch.set_observed(49);
    epoch.set_observed(50);
    for i in 0..60 {
        assert_eq!(epoch.is_observed(i), i == 0 || i == 9 || i == 49);
    }
    assert_eq!(epoch.has_observed, [1, 2, 0, 0, 0, 0, 2]);
}

#[test]
fn gateway_slot_size_correct() {
    assert_eq!(std::mem::size_of::<GatewaySlot>(), 56);
}

#[test]
fn gateway_registry_size_correct() {
    assert_eq!(GatewayRegistry::SIZE, 168_040);
}

fn put<T: AnchorSerialize>(buf: &mut Vec<u8>, value: &T) {
    AnchorSerialize::serialize(value, buf).unwrap();
}

fn start() -> Vec<u8> {
    vec![0u8; 8]
}

#[test]
fn gateway_size_matches_max_serialized() {
    let mut gateway = make_gateway(0);
    gateway.label = "x".repeat(64);
    gateway.fqdn = "x".repeat(128);
    gateway.properties = "x".repeat(256);
    gateway.note = "x".repeat(256);
    gateway.leave_timestamp = Some(0);
    let mut buf = start();
    put(&mut buf, &gateway.operator.bytes);
    put(&mut buf, &gateway.label);
    put(&mut buf, &gateway.fqdn);
    put(&mut buf, &gateway.port);
    put(&mut buf, &(gateway.protocol as u8));
    put(&mut buf, &gateway.properties);
    put(&mut buf, &gateway.note);
    put(&mut buf, &gateway.operator_stake);
    put(&mut buf, &gateway.total_delegated_stake);
    put(&mut buf, &(gateway.status as u8));
    put(&mut buf, &gateway.start_timestamp);
    put(&mut buf, &gateway.leave_timestamp);
    put(&mut buf, &gateway.leave_epoch_duration);
    let s = gateway.stats;
    put(&mut buf, &(s.passed_epochs, s.failed_epochs, s.total_epochs, s.prescribed_epochs, s.observed_epochs));
    put(&mut buf, &(s.failed_consecutive, s.passed_consecutive));
    let w = gateway.weights;
    put(&mut buf, &(w.stake_weight, w.tenure_weight, w.gateway_performance_ratio, w.observer_performance_ratio));
    put(&mut buf, &(w.composite_weight, w.normalized_composite_weight, w.weights_epoch));
    let o = gateway.settings;
    put(&mut buf, &(o.allow_delegated_staking, o.delegate_reward_share_ratio));
    put(&mut buf, &(o.min_delegation_amount, o.allowlist_enabled));
    put(&mut buf, &(gateway.registry_index.index, gateway.registry_index._reserved));
    put(&mut buf, &gateway.observer_address.bytes);
    put(&mut buf, &gateway.cumulative_reward_per_token);
    put(&mut buf, &gateway.bump);
    assert_eq!(buf.len(), Gateway::SIZE);
}

#[test]
fn delegation_size_matches_serialized() {
    let d = make_delegation(0, 0);
    let mut buf = start();
    put(&mut buf, &(d.gateway.bytes, d.delegator.bytes));
    put(&mut buf, &(d.amount, d.start_timestamp, d.reward_debt, d.bump));
    assert_eq!(buf.len(), Delegation::SIZE);
}

fn make_withdrawal(is_exit_vault: bool, available_at: i64) -> Withdrawal {
    Withdrawal {
        owner: Pubkey::default(),
        withdrawal_id: 1,
        gateway: Pubkey::default(),
        amount: 1_000_000,
        created_at: 0,
        available_at,
        is_delegate: false,
        is_exit_vault,
        is_protected: false,
        bump: 0,
        version: unversioned(),
    }
}

#[test]
fn withdrawal_size_matches_serialized() {
    let w = make_withdrawal(false, 0);
    let mut buf = start();
    put(&mut buf, &(w.owner.bytes, w.withdrawal_id, w.gateway.bytes));
    put(&mut buf, &(w.amount, w.created_at, w.available_at));
    put(&mut buf, &(w.is_delegate, w.is_exit_vault, w.is_protected, w.bump));
    assert_eq!(buf.len(), Withdrawal::SIZE);
}

#[test]
fn withdrawal_counter_size_matches_serialized() {
    let c = WithdrawalCounter { owner: Pubkey::default(), next_id: 0, bump: 0, version: unversioned() };
    let mut buf = start();
    put(&mut buf, &(c.owner.bytes, c.next_id, c.bump));
    assert_eq!(buf.len(), WithdrawalCounter::SIZE);
}

#[test]
fn allowlist_entry_size_matches_serialized() {
    let a = AllowlistEntry {
        gateway: Pubkey::default(),
        delegate: Pubkey::default(),
        added_at: 0,
        bump: 0,
        version: unversioned(),
    };
    let mut buf = start();
    put(&mut buf, &(a.gateway.bytes, a.delegate.bytes, a.added_at, a.bump));
    assert_eq!(buf.len(), AllowlistEntry::SIZE);
}

#[test]
fn name_registry_entries_are_read() {
    let mut data = vec![0u8; 48 + 3 * 40];
    data[40] = 3;
    data[41] = 1;
    for i in 0..32 {
        data[48 + 40 + i] = 7;
    }
    assert_eq!(read_name_registry_header(&data), Some((259, 48)));
    assert_eq!(read_name_registry_header(&data[..47]), None);
    assert_eq!(read_name_entry(&data, 48, 0), None);
    assert_eq!(read_name_entry(&data, 48, 1), Some([7u8; 32]));
    assert_eq!(read_name_entry(&data, 48, 3), None);
}

#[test]
fn total_stake_saturates() {
    let mut gateway = make_gateway(0);
    assert_eq!(gateway.total_stake(), 10_100_000_000);
    gateway.operator_stake = u64::MAX;
    assert_eq!(gateway.total_stake(), u64::MAX);
}

#[test]
fn versions_are_ordered_by_their_numbers() {
    let v = |a: u8, b: u8, c: u8| SchemaVersion::new(a, b, c);
    assert!(v(0, 9, 9).is_older_than(&v(1, 0, 0)));
    assert!(v(1, 0, 9).is_older_than(&v(1, 1, 0)));
    assert!(v(1, 1, 0).is_older_than(&v(1, 1, 1)));
    assert!(!v(1, 1, 1).is_older_than(&v(1, 1, 1)));
    assert!(!v(2, 0, 0).is_older_than(&v(1, 9, 9)));
}

#[test]
fn fee_rate_goes_with_the_scale() {
    assert_eq!(make_redelegation(0, 1_000_000).get_fee_rate(100, u64::MAX), 0);
    assert_eq!(make_redelegation(1, 1_000_000).get_fee_rate(100, 1_000), 100);
    assert_eq!(make_redelegation(9, 1_000_000).get_fee_rate(100, 1_000), 600);
    assert_eq!(make_redelegation(9, 50).get_fee_rate(100, u64::MAX), 0);
}
