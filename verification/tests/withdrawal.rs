use ario_gar::error::GarError;
use ario_gar::instructions::delegate::{decrease_delegate_stake, DecreaseDelegateStake};
use ario_gar::instructions::effects::{Holder, TokenTransfer};
use ario_gar::instructions::operator_stake::{
    decrease_operator_stake, increase_operator_stake, DecreaseOperatorStake, IncreaseOperatorStake,
};
use ario_gar::instructions::withdrawal::{
    cancel_withdrawal, claim_withdrawal, close_drained_withdrawal, compute_penalty_rate as penalty_rate,
    instant_withdrawal, CancelWithdrawal, ClaimWithdrawal, CloseDrainedWithdrawal, InstantWithdrawal,
};
use ario_gar::pubkey::Pubkey;
use ario_gar::state::{
    Delegation, Gateway, GatewaySettings, GatewaySettings2, GatewayStats, GatewayStatus, GatewayWeights, Protocol,
    RegistryIndex, SchemaVersion, Withdrawal, WithdrawalCounter,
};

const RATE_SCALE: u64 = 1_000_000;
const MAX: u64 = 500_000;
const MIN: u64 = 100_000;
const PERIOD: i64 = 30 * 86_400;

fn key(n: u8) -> Pubkey {
    Pubkey::new_from_array([n; 32])
}

fn unversioned() -> SchemaVersion {
    SchemaVersion::new(0, 0, 0)
}

const OPERATOR: u8 = 1;
const DELEGATOR: u8 = 2;
const POOL: u8 = 8;
const TREASURY: u8 = 9;

fn settings() -> GatewaySettings {
    GatewaySettings {
        authority: key(5),
        mint: key(6),
        min_operator_stake: 20_000_000_000,
        min_delegate_stake: 10_000_000,
        withdrawal_period: PERIOD,
        max_expedited_withdrawal_penalty: MAX,
        min_expedited_withdrawal_penalty: MIN,
        min_expedited_withdrawal_amount: 1_000_000,
        max_delegates_per_gateway: 10_000,
        migration_active: true,
        migration_authority: key(7),
        stake_token_account: key(POOL),
        protocol_token_account: key(TREASURY),
        arns_program_id: key(10),
        total_staked: 100_000_000_000,
        total_delegated: 50_000_000_000,
        total_withdrawn: 7_000_000_000,
        bump: 255,
        version: SchemaVersion::new(1, 0, 0),
    }
}

fn gateway() -> Gateway {
    Gateway {
        operator: key(OPERATOR),
        label: "label".to_string(),
        fqdn: "example.org".to_string(),
        port: 443,
        protocol: Protocol::Https,
        properties: String::new(),
        note: String::new(),
        operator_stake: 30_000_000_000,
        total_delegated_stake: 1_000_000_000,
        status: GatewayStatus::Joined,
        start_timestamp: 0,
        leave_timestamp: None,
        leave_epoch_duration: 0,
        stats: GatewayStats::default(),
        weights: GatewayWeights::default(),
        settings: GatewaySettings2 {
            allow_delegated_staking: true,
            delegate_reward_share_ratio: 500,
            min_delegation_amount: 10_000_000,
            allowlist_enabled: false,
        },
        registry_index: RegistryIndex::default(),
        observer_address: key(3),
        cumulative_reward_per_token: 0,
        bump: 254,
        version: SchemaVersion::new(1, 1, 0),
    }
}

fn delegation(amount: u64) -> Delegation {
    Delegation {
        gateway: key(OPERATOR),
        delegator: key(DELEGATOR),
        amount,
        start_timestamp: 1,
        reward_debt: 0,
        bump: 253,
        version: unversioned(),
    }
}

fn counter(owner: u8) -> WithdrawalCounter {
    WithdrawalCounter { owner: key(owner), next_id: 4, bump: 252, version: unversioned() }
}

fn make_withdrawal(is_exit_vault: bool, available_at: i64) -> Withdrawal {
    Withdrawal {
        owner: key(OPERATOR),
        withdrawal_id: 1,
        gateway: key(OPERATOR),
        amount: 1_000_000,
        created_at: 0,
        available_at,
        is_delegate: false,
        is_exit_vault,
        is_protected: false,
        bump: 0,
        version: unversioned(),
    }
}

fn transfer(from: Holder, to: Holder, amount: u64) -> TokenTransfer {
    TokenTransfer { from, to, amount }
}

#[test]
fn exit_vault_flag_set_on_leave_network() {
    let withdrawal = make_withdrawal(true, 90 * 86_400);
    assert!(withdrawal.is_exit_vault);
}

#[test]
fn normal_withdrawal_not_exit_vault() {
    let withdrawal = make_withdrawal(false, 90 * 86_400);
    assert!(!withdrawal.is_exit_vault);
}

#[test]
fn exit_vault_flag_preserved() {
    let withdrawal = make_withdrawal(true, 90 * 86_400);
    assert!(withdrawal.is_exit_vault);
}

fn instant(withdrawal: Withdrawal) -> InstantWithdrawal {
    InstantWithdrawal {
        settings: settings(),
        withdrawal,
        stake_token_account: key(POOL),
        protocol_token_account: key(TREASURY),
        owner: key(OPERATOR),
    }
}

#[test]
fn all_withdrawals_can_be_expedited() {
    let exit = make_withdrawal(true, 90 * 86_400);
    let normal = make_withdrawal(false, 90 * 86_400);
    assert!(exit.is_exit_vault);
    assert!(!normal.is_exit_vault);
    assert!(instant_withdrawal(instant(exit), 5).is_ok());
    assert!(instant_withdrawal(instant(normal), 5).is_ok());
}

#[test]
fn protected_vault_cannot_be_expedited() {
    let mut w = make_withdrawal(true, 90 * 86_400);
    w.is_protected = true;
    assert_eq!(instant_withdrawal(instant(w), 5).err(), Some(GarError::ProtectedVault));
}

#[test]
fn expediting_pays_owner_and_treasury() {
    let o = instant_withdrawal(instant(make_withdrawal(false, PERIOD)), PERIOD / 2).unwrap();
    assert_eq!(
        o.transfers,
        vec![
            transfer(Holder::StakePool, Holder::Wallet, 700_000),
            transfer(Holder::StakePool, Holder::Treasury, 300_000),
        ]
    );
    assert_eq!((o.event.amount, o.event.fee, o.event.payout), (1_000_000, 300_000, 700_000));
    assert_eq!(o.accounts.settings.total_withdrawn, 7_000_000_000 - 1_000_000);
}

#[test]
fn expediting_is_refused() {
    let w = make_withdrawal(false, PERIOD);
    let mut ctx = instant(w);
    ctx.owner = key(77);
    assert_eq!(instant_withdrawal(ctx, 0).err(), Some(GarError::InvalidOwner));
    let mut ctx = instant(w);
    ctx.stake_token_account = key(77);
    assert_eq!(instant_withdrawal(ctx, 0).err(), Some(GarError::InvalidParameter));
    let mut ctx = instant(w);
    ctx.protocol_token_account = key(77);
    assert_eq!(instant_withdrawal(ctx, 0).err(), Some(GarError::InvalidParameter));
    let mut ctx = instant(w);
    ctx.withdrawal.amount = 999_999;
    assert_eq!(instant_withdrawal(ctx, 0).err(), Some(GarError::InvalidWithdrawalAmount));
}

fn expected_penalty_rate(max: u64, min: u64, total_period: i64, created_at: i64, now: i64) -> u64 {
    penalty_rate(max, min, total_period, created_at, now)
}

#[test]
fn decay_at_known_elapsed_points() {
    assert_eq!(expected_penalty_rate(MAX, MIN, PERIOD, 0, 0), MAX);
    let q = PERIOD / 4;
    assert_eq!(expected_penalty_rate(MAX, MIN, PERIOD, 0, q), 400_000);
    let half = PERIOD / 2;
    assert_eq!(expected_penalty_rate(MAX, MIN, PERIOD, 0, half), 300_000);
    let almost = PERIOD - 1;
    let rate_almost = expected_penalty_rate(MAX, MIN, PERIOD, 0, almost);
    assert!(rate_almost > MIN && rate_almost < MIN + 100);
    assert_eq!(expected_penalty_rate(MAX, MIN, PERIOD, 0, PERIOD), MIN);
    assert_eq!(expected_penalty_rate(MAX, MIN, PERIOD, 0, PERIOD + 1), MIN);
}

#[test]
fn boundary_is_inclusive_at_period() {
    let at_period_minus_one = expected_penalty_rate(MAX, MIN, PERIOD, 0, PERIOD - 1);
    let at_period = expected_penalty_rate(MAX, MIN, PERIOD, 0, PERIOD);
    assert!(at_period_minus_one > MIN, "period-1 still decaying");
    assert_eq!(at_period, MIN, "period boundary is inclusive -> min");
}

#[test]
fn zero_total_period_yields_min() {
    assert_eq!(expected_penalty_rate(MAX, MIN, 0, 0, 0), MIN);
    assert_eq!(expected_penalty_rate(MAX, MIN, 0, 0, 123_456), MIN);
}

#[test]
fn result_always_within_min_max_clamp() {
    for num in 0..=40i64 {
        let now = (PERIOD * num) / 30;
        let rate = expected_penalty_rate(MAX, MIN, PERIOD, 0, now);
        assert!((MIN..=MAX).contains(&rate), "rate {rate} out of [{MIN},{MAX}] at elapsed {now}");
    }
    assert_eq!(expected_penalty_rate(MAX, MIN, PERIOD, 1_000, 500), MAX);
}

#[test]
fn fee_and_payout_track_the_rate() {
    let amount: u64 = 1_000_000;
    let rate = expected_penalty_rate(MAX, MIN, PERIOD, 0, PERIOD / 2);
    let fee = (amount as u128 * rate as u128 / RATE_SCALE as u128) as u64;
    let payout = amount - fee;
    assert_eq!(rate, 300_000);
    assert_eq!(fee, 300_000);
    assert_eq!(payout, 700_000);
}

fn compute_penalty_rate(elapsed: i64, total_period: i64, max_penalty: u64, min_penalty: u64) -> u64 {
    penalty_rate(max_penalty, min_penalty, total_period, 0, elapsed)
}

#[test]
fn penalty_at_start() {
    let rate = compute_penalty_rate(0, 2_592_000, 500_000, 100_000);
    assert_eq!(rate, 500_000);
}

#[test]
fn penalty_at_halfway() {
    let rate = compute_penalty_rate(15 * 86_400, 30 * 86_400, 500_000, 100_000);
    assert_eq!(rate, 300_000);
}

#[test]
fn penalty_near_end() {
    let total = 30 * 86_400i64;
    let elapsed = total - 1;
    let rate = compute_penalty_rate(elapsed, total, 500_000, 100_000);
    assert!(rate >= 100_000 && rate <= 100_100);
}

#[test]
fn penalty_at_full_period() {
    let rate = compute_penalty_rate(2_592_000, 2_592_000, 500_000, 100_000);
    assert_eq!(rate, 100_000);
}

#[test]
fn penalty_zero_period() {
    let rate = compute_penalty_rate(0, 0, 500_000, 100_000);
    assert_eq!(rate, 100_000);
}

fn decrease(held: u64, amount: u64, gateway_min: u64) -> Result<u64, GarError> {
    let mut g = gateway();
    g.settings.min_delegation_amount = gateway_min;
    let ctx = DecreaseDelegateStake {
        settings: settings(),
        gateway: g,
        delegation: delegation(held),
        withdrawal_counter: counter(DELEGATOR),
        withdrawal_bump: 3,
        delegator: key(DELEGATOR),
    };
    decrease_delegate_stake(ctx, amount, 1_000).map(|o| o.accounts.delegation.amount)
}

#[test]
fn decrease_delegation_full_withdrawal_succeeds() {
    assert_eq!(decrease(50_000_000, 50_000_000, 10_000_000), Ok(0), "Full withdrawal should succeed");
}

#[test]
fn decrease_delegation_above_minimum_succeeds() {
    assert_eq!(decrease(50_000_000, 30_000_000, 10_000_000), Ok(20_000_000));
}

#[test]
fn decrease_delegation_at_minimum_boundary_succeeds() {
    assert_eq!(decrease(50_000_000, 40_000_000, 10_000_000), Ok(10_000_000));
}

#[test]
fn decrease_delegation_below_minimum_fails() {
    assert_eq!(decrease(50_000_000, 45_000_000, 10_000_000), Err(GarError::DelegationBelowMinimum));
}

#[test]
fn decrease_delegation_leaves_1_mario_fails() {
    assert_eq!(decrease(10_000_000, 9_999_999, 10_000_000), Err(GarError::DelegationBelowMinimum));
}

#[test]
fn decrease_delegation_custom_gateway_min() {
    assert_eq!(decrease(100_000_000, 60_000_000, 50_000_000), Err(GarError::DelegationBelowMinimum));
}

#[test]
fn decrease_delegation_is_refused() {
    assert_eq!(decrease(50_000_000, 0, 10_000_000), Err(GarError::InvalidAmount));
    assert_eq!(decrease(50_000_000, 50_000_001, 10_000_000), Err(GarError::InsufficientStake));
}

#[test]
fn claiming_pays_once_the_lock_is_over() {
    let w = make_withdrawal(false, 500);
    let ctx = ClaimWithdrawal {
        settings: settings(),
        withdrawal: w,
        stake_token_account: key(POOL),
        owner: key(OPERATOR),
    };
    assert_eq!(claim_withdrawal(ctx, 499).err(), Some(GarError::WithdrawalNotReady));
    let o = claim_withdrawal(ctx, 500).unwrap();
    assert_eq!(o.transfers, vec![transfer(Holder::StakePool, Holder::Wallet, 1_000_000)]);
    assert_eq!(o.accounts.settings.total_withdrawn, 6_999_000_000);
    assert_eq!(o.event.withdrawal_id, 1);
    let mut other = ctx;
    other.owner = key(44);
    assert_eq!(claim_withdrawal(other, 500).err(), Some(GarError::InvalidOwner));
    let mut other = ctx;
    other.stake_token_account = key(44);
    assert_eq!(claim_withdrawal(other, 500).err(), Some(GarError::InvalidParameter));
}

#[test]
fn only_a_drained_vault_closes() {
    let mut w = make_withdrawal(false, 500);
    assert_eq!(
        close_drained_withdrawal(CloseDrainedWithdrawal { withdrawal: w }).err(),
        Some(GarError::WithdrawalNotDrained)
    );
    w.amount = 0;
    assert!(close_drained_withdrawal(CloseDrainedWithdrawal { withdrawal: w }).is_ok());
}

fn decrease_operator(stake: u64, amount: u64, status: GatewayStatus) -> DecreaseOperatorStake {
    let mut g = gateway();
    g.operator_stake = stake;
    g.status = status;
    let _ = amount;
    DecreaseOperatorStake {
        settings: settings(),
        gateway: g,
        withdrawal_counter: counter(OPERATOR),
        withdrawal_bump: 3,
        operator: key(OPERATOR),
    }
}

#[test]
fn operator_stake_keeps_its_minimum() {
    let joined = GatewayStatus::Joined;
    let run = |stake: u64, amount: u64, status: GatewayStatus| {
        decrease_operator_stake(decrease_operator(stake, amount, status), amount, 100)
    };
    assert_eq!(run(30, 0, joined).err(), Some(GarError::InvalidAmount));
    assert_eq!(run(30, 31, joined).err(), Some(GarError::InsufficientStake));
    assert_eq!(run(30_000_000_000, 10_000_000_001, joined).err(), Some(GarError::StakeBelowMinimum));
    assert_eq!(run(30_000_000_000, 30_000_000_000, joined).err(), Some(GarError::MustLeaveFirst));
    assert!(run(30_000_000_000, 30_000_000_000, GatewayStatus::Leaving).is_ok());
    let o = run(30_000_000_000, 10_000_000_000, joined).unwrap();
    assert_eq!(o.accounts.gateway.operator_stake, 20_000_000_000);
    assert_eq!(o.accounts.withdrawal.withdrawal_id, 4);
    assert_eq!(o.accounts.withdrawal.available_at, 100 + PERIOD);
    assert_eq!(o.accounts.withdrawal_counter.next_id, 5);
    assert_eq!(o.accounts.settings.total_staked, 90_000_000_000);
    assert_eq!(o.accounts.settings.total_withdrawn, 17_000_000_000);
    let mut late = decrease_operator(30_000_000_000, 1, joined);
    late.settings.withdrawal_period = i64::MAX;
    assert_eq!(decrease_operator_stake(late, 1, 100).err(), Some(GarError::ArithmeticOverflow));
    let mut other = decrease_operator(30_000_000_000, 1, joined);
    other.operator = key(66);
    assert_eq!(decrease_operator_stake(other, 1, 100).err(), Some(GarError::NotOperator));
}

#[test]
fn operator_stake_grows() {
    let ctx = IncreaseOperatorStake {
        settings: settings(),
        gateway: gateway(),
        stake_token_account: key(POOL),
        operator: key(OPERATOR),
    };
    let o = increase_operator_stake(ctx.clone(), 5, 9).unwrap();
    assert_eq!(o.accounts.gateway.operator_stake, 30_000_000_005);
    assert_eq!(o.accounts.settings.total_staked, 100_000_000_005);
    assert_eq!(o.transfers, vec![transfer(Holder::Wallet, Holder::StakePool, 5)]);
    assert_eq!((o.event.added, o.event.new_total, o.event.timestamp), (5, 30_000_000_005, 9));
    assert_eq!(increase_operator_stake(ctx.clone(), 0, 9).err(), Some(GarError::InvalidAmount));
    let mut leaving = ctx.clone();
    leaving.gateway.status = GatewayStatus::Leaving;
    assert_eq!(increase_operator_stake(leaving, 5, 9).err(), Some(GarError::GatewayLeaving));
    assert_eq!(increase_operator_stake(ctx, u64::MAX, 9).err(), Some(GarError::ArithmeticOverflow));
}

#[test]
fn cancelling_undoes_an_operator_withdrawal() {
    let amount = 10_000_000_000;
    let before = decrease_operator(30_000_000_000, amount, GatewayStatus::Joined);
    let o = decrease_operator_stake(before.clone(), amount, 100).unwrap();
    let back = cancel_withdrawal(
        CancelWithdrawal {
            settings: o.accounts.settings,
            gateway: o.accounts.gateway,
            withdrawal: o.accounts.withdrawal,
            delegation: None,
            owner: key(OPERATOR),
        },
        200,
    )
    .unwrap();
    assert_eq!(back.accounts.gateway.operator_stake, 30_000_000_000);
    assert_eq!(back.accounts.settings.total_staked, before.settings.total_staked);
    assert_eq!(back.accounts.settings.total_withdrawn, before.settings.total_withdrawn);
    assert!(!back.event.is_delegate);
}

#[test]
fn cancelling_undoes_a_delegate_withdrawal() {
    let ctx = DecreaseDelegateStake {
        settings: settings(),
        gateway: gateway(),
        delegation: delegation(50_000_000),
        withdrawal_counter: counter(DELEGATOR),
        withdrawal_bump: 3,
        delegator: key(DELEGATOR),
    };
    let o = decrease_delegate_stake(ctx, 40_000_000, 100).unwrap();
    assert_eq!(o.accounts.gateway.total_delegated_stake, 960_000_000);
    let cancel = CancelWithdrawal {
        settings: o.accounts.settings,
        gateway: o.accounts.gateway,
        withdrawal: o.accounts.withdrawal,
        delegation: Some(o.accounts.delegation),
        owner: key(DELEGATOR),
    };
    let back = cancel_withdrawal(cancel.clone(), 200).unwrap();
    assert_eq!(back.accounts.delegation.unwrap().amount, 50_000_000);
    assert_eq!(back.accounts.gateway.total_delegated_stake, 1_000_000_000);
    assert_eq!(back.accounts.settings.total_delegated, 50_000_000_000);

    let mut none = cancel.clone();
    none.delegation = None;
    assert_eq!(cancel_withdrawal(none, 200).err(), Some(GarError::DelegationNotFound));
    let mut closed = cancel.clone();
    closed.gateway.settings.allow_delegated_staking = false;
    assert_eq!(cancel_withdrawal(closed, 200).err(), Some(GarError::DelegationNotAllowed));
    let mut leaving = cancel.clone();
    leaving.gateway.status = GatewayStatus::Leaving;
    assert_eq!(cancel_withdrawal(leaving, 200).err(), Some(GarError::GatewayLeaving));
    let mut other = cancel.clone();
    other.gateway.operator = key(50);
    assert_eq!(cancel_withdrawal(other, 200).err(), Some(GarError::InvalidParameter));
    let mut stranger = cancel;
    stranger.owner = key(50);
    assert_eq!(cancel_withdrawal(stranger, 200).err(), Some(GarError::InvalidOwner));
}
