use ario_gar::addresses::allowlist_address;
use ario_gar::error::GarError;
use ario_gar::instructions::delegate::{
    claim_delegate_from_leaving_gateway, close_empty_delegation, compound_delegation_rewards, delegate_stake,
    delegate_stake_at, redelegate_stake, redelegate_stake_at, ClaimDelegateFromLeavingGateway,
    CloseEmptyDelegation, CompoundDelegationRewards, DelegateStake, EntryAccount, RedelegateStake,
    TokenAccountInfo,
};
use ario_gar::instructions::effects::{Holder, Refusal, TokenTransfer};
use ario_gar::pubkey::Pubkey;
use ario_gar::state::{
    Delegation, Gateway, GatewaySettings, GatewaySettings2, GatewayStats, GatewayStatus, GatewayWeights, Protocol,
    RedelegationRecord, RegistryIndex, SchemaVersion, WithdrawalCounter,
};

const ONE: u128 = 1_000_000_000_000_000_000;

fn key(n: u8) -> Pubkey {
    Pubkey::new_from_array([n; 32])
}

fn program() -> Pubkey {
    key(200)
}

fn gateway(operator: u8) -> Gateway {
    Gateway {
        operator: key(operator),
        label: "label".to_string(),
        fqdn: "example.org".to_string(),
        port: 443,
        protocol: Protocol::Https,
        properties: String::new(),
        note: String::new(),
        operator_stake: 20_000_000_000,
        total_delegated_stake: 100_000_000,
        status: GatewayStatus::Joined,
        start_timestamp: 0,
        leave_timestamp: None,
        leave_epoch_duration: 0,
        stats: GatewayStats::default(),
        weights: GatewayWeights::default(),
        settings: GatewaySettings2 {
            allow_delegated_staking: true,
            delegate_reward_share_ratio: 1000,
            min_delegation_amount: 10_000_000,
            allowlist_enabled: false,
        },
        registry_index: RegistryIndex::default(),
        observer_address: key(operator + 100),
        cumulative_reward_per_token: ONE / 2,
        bump: 255,
        version: SchemaVersion::new(1, 1, 0),
    }
}

fn settings() -> GatewaySettings {
    GatewaySettings {
        authority: key(50),
        mint: key(51),
        min_operator_stake: 20_000_000_000,
        min_delegate_stake: 10_000_000,
        withdrawal_period: 2_592_000,
        max_expedited_withdrawal_penalty: 500_000,
        min_expedited_withdrawal_penalty: 100_000,
        min_expedited_withdrawal_amount: 1_000_000,
        max_delegates_per_gateway: 10_000,
        migration_active: true,
        migration_authority: key(52),
        stake_token_account: key(53),
        protocol_token_account: key(54),
        arns_program_id: key(55),
        total_staked: 0,
        total_delegated: 500_000_000,
        total_withdrawn: 0,
        bump: 255,
        version: SchemaVersion::new(1, 0, 0),
    }
}

fn delegation(gateway: u8, amount: u64) -> Delegation {
    Delegation {
        gateway: key(gateway),
        delegator: key(7),
        amount,
        start_timestamp: if amount > 0 { 5 } else { 0 },
        reward_debt: 0,
        bump: if amount > 0 { 9 } else { 0 },
        version: SchemaVersion::new(0, 0, 0),
    }
}

fn stake(amount: u64) -> DelegateStake {
    DelegateStake {
        settings: settings(),
        gateway: gateway(1),
        delegation: delegation(1, amount),
        delegation_bump: 13,
        stake_token_account: key(53),
        delegator: key(7),
        allowlist_entry: None,
        program_id: program(),
    }
}

#[test]
fn new_delegation_collects_no_earlier_rewards() {
    let o = delegate_stake(stake(0), 20_000_000, 88).unwrap();
    let d = o.accounts.delegation;
    assert_eq!((d.amount, d.reward_debt, d.start_timestamp, d.bump), (20_000_000, ONE / 2, 88, 13));
    assert_eq!((d.gateway, d.delegator), (key(1), key(7)));
    assert_eq!(o.accounts.gateway.total_delegated_stake, 120_000_000);
    assert_eq!(o.accounts.settings.total_delegated, 520_000_000);
    assert_eq!(
        o.transfers,
        vec![TokenTransfer { from: Holder::Wallet, to: Holder::StakePool, amount: 20_000_000 }]
    );
    assert_eq!((o.event.amount, o.event.total), (20_000_000, 20_000_000));
}

#[test]
fn adding_stake_settles_rewards_first() {
    let o = delegate_stake(stake(40_000_000), 10_000_000, 88).unwrap();
    assert_eq!(o.accounts.delegation.amount, 70_000_000);
    assert_eq!((o.accounts.delegation.start_timestamp, o.accounts.delegation.bump), (5, 9));
    assert_eq!(o.accounts.gateway.total_delegated_stake, 130_000_000);
    assert_eq!(o.event.total, 70_000_000);
}

#[test]
fn allowlist_keeps_strangers_out() {
    let mut ctx = stake(0);
    ctx.gateway.settings.allowlist_enabled = true;
    let refused = Some(Refusal::Gar(GarError::DelegateNotAllowed));
    assert_eq!(delegate_stake(ctx.clone(), 10_000_000, 0).err(), refused);
    let address = allowlist_address(&key(1), &key(7), &program()).unwrap().0;
    ctx.allowlist_entry = Some(EntryAccount { key: key(9), owned: true });
    assert_eq!(delegate_stake(ctx.clone(), 10_000_000, 0).err(), refused);
    ctx.allowlist_entry = Some(EntryAccount { key: address, owned: false });
    assert_eq!(delegate_stake(ctx.clone(), 10_000_000, 0).err(), refused);
    ctx.allowlist_entry = Some(EntryAccount { key: address, owned: true });
    assert!(delegate_stake(ctx.clone(), 10_000_000, 0).is_ok());
    assert_eq!(delegate_stake_at(ctx, 10_000_000, 0, None).err(), Some(Refusal::NoProgramAddress));
    let mut grandfathered = stake(10_000_000);
    grandfathered.gateway.settings.allowlist_enabled = true;
    assert!(delegate_stake(grandfathered, 10_000_000, 0).is_ok());
}

#[test]
fn staking_is_refused() {
    let gar = |e: GarError| Some(Refusal::Gar(e));
    let refused = |ctx: DelegateStake, amount: u64| delegate_stake(ctx, amount, 0).err();
    let mut ctx = stake(0);
    ctx.stake_token_account = key(9);
    assert_eq!(refused(ctx, 10_000_000), gar(GarError::InvalidParameter));
    assert_eq!(refused(stake(0), 0), gar(GarError::InvalidAmount));
    let mut ctx = stake(0);
    ctx.gateway.settings.allow_delegated_staking = false;
    assert_eq!(refused(ctx, 10_000_000), gar(GarError::DelegationNotAllowed));
    assert_eq!(refused(stake(0), 9_999_999), gar(GarError::DelegationBelowMinimum));
    let mut ctx = stake(0);
    ctx.gateway.status = GatewayStatus::Leaving;
    assert_eq!(refused(ctx, 10_000_000), gar(GarError::GatewayNotJoined));
    let mut ctx = stake(0);
    ctx.delegator = key(1);
    assert_eq!(refused(ctx, 10_000_000), gar(GarError::CannotDelegateToSelf));
    assert_eq!(refused(stake(10_000_000), u64::MAX), gar(GarError::ArithmeticOverflow));
}

#[test]
fn empty_delegation_closes() {
    let ctx = |amount: u64, delegator: u8| CloseEmptyDelegation {
        gateway: gateway(1),
        delegation: delegation(1, amount),
        delegator: key(delegator),
    };
    let o = close_empty_delegation(ctx(0, 7), 4).unwrap();
    assert_eq!((o.event.delegator, o.event.gateway), (key(7), key(1)));
    assert_eq!(close_empty_delegation(ctx(1, 7), 4).err(), Some(GarError::InvalidAmount));
    assert_eq!(close_empty_delegation(ctx(0, 8), 4).err(), Some(GarError::NotDelegator));
}

#[test]
fn stake_is_claimed_from_a_leaving_gateway() {
    let ctx = |amount: u64| {
        let mut g = gateway(1);
        g.status = GatewayStatus::Leaving;
        ClaimDelegateFromLeavingGateway {
            settings: settings(),
            gateway: g,
            delegation: delegation(1, amount),
            withdrawal_counter: WithdrawalCounter {
                owner: key(7),
                next_id: 6,
                bump: 1,
                version: SchemaVersion::new(1, 0, 0),
            },
            withdrawal_bump: 15,
            delegator: key(7),
        }
    };
    let o = claim_delegate_from_leaving_gateway(ctx(40_000_000), 100).unwrap();
    let w = o.accounts.withdrawal;
    assert_eq!((w.amount, w.owner, w.withdrawal_id, w.bump), (60_000_000, key(7), 6, 15));
    assert!(w.is_delegate && !w.is_exit_vault && !w.is_protected);
    assert_eq!(o.accounts.delegation.amount, 0);
    assert_eq!(o.accounts.gateway.total_delegated_stake, 60_000_000);
    assert_eq!(o.accounts.settings.total_withdrawn, 60_000_000);
    assert_eq!(o.accounts.withdrawal_counter.next_id, 7);
    let mut joined = ctx(1);
    joined.gateway.status = GatewayStatus::Joined;
    assert_eq!(claim_delegate_from_leaving_gateway(joined, 0).err(), Some(GarError::GatewayNotJoined));
    let mut other = ctx(1);
    other.delegator = key(8);
    assert_eq!(claim_delegate_from_leaving_gateway(other, 0).err(), Some(GarError::NotDelegator));
    assert_eq!(claim_delegate_from_leaving_gateway(ctx(0), 0).err(), Some(GarError::InvalidAmount));
    assert_eq!(
        claim_delegate_from_leaving_gateway(ctx(1), i64::MAX).err(),
        Some(GarError::ArithmeticOverflow)
    );
}

#[test]
fn compounding_adds_pending_rewards() {
    let ctx = |delegator: u8| CompoundDelegationRewards {
        gateway: gateway(1),
        delegation: delegation(1, 40_000_000),
        delegator: key(delegator),
    };
    let o = compound_delegation_rewards(ctx(7), 4).unwrap();
    assert_eq!(o.event.compounded, 20_000_000);
    assert_eq!(o.accounts.delegation.amount, 60_000_000);
    assert_eq!(compound_delegation_rewards(ctx(8), 4).err(), Some(GarError::NotDelegator));
}

fn token(k: u8, owner: u8) -> TokenAccountInfo {
    TokenAccountInfo { key: key(k), owner: key(owner), mint: key(51) }
}

fn redelegate(count: u32) -> RedelegateStake {
    RedelegateStake {
        source_gateway: gateway(1),
        target_gateway: gateway(2),
        source_delegation: delegation(1, 40_000_000),
        target_delegation: delegation(2, 0),
        target_delegation_bump: 31,
        redelegation_record: RedelegationRecord {
            delegator: key(7),
            redelegation_count: count,
            last_redelegation_at: 0,
            fee_reset_at: 1_000_000,
            bump: 1,
            version: SchemaVersion::new(1, 0, 0),
        },
        delegator_token_account: token(60, 7),
        stake_token_account: token(53, 61),
        protocol_token_account: token(54, 61),
        settings: settings(),
        delegator: key(7),
        allowlist_entry: None,
        program_id: program(),
    }
}

#[test]
fn redelegation_moves_stake_and_charges_a_fee() {
    let o = redelegate_stake(redelegate(2), 50_000_000, 1_000).unwrap();
    let a = &o.accounts;
    assert_eq!(o.event.fee, 10_000_000);
    assert_eq!((a.source_delegation.amount, a.target_delegation.amount), (10_000_000, 40_000_000));
    assert_eq!(a.source_gateway.total_delegated_stake, 70_000_000);
    assert_eq!(a.target_gateway.total_delegated_stake, 140_000_000);
    assert_eq!((a.target_delegation.start_timestamp, a.target_delegation.bump), (1_000, 31));
    assert_eq!(a.redelegation_record.redelegation_count, 3);
    assert_eq!(a.redelegation_record.fee_reset_at, 1_000 + 604_800);
    assert_eq!(a.settings.total_delegated, 490_000_000);
    assert_eq!(
        o.transfers,
        vec![TokenTransfer { from: Holder::StakePool, to: Holder::Treasury, amount: 10_000_000 }]
    );
    let free = redelegate_stake(redelegate(2), 50_000_000, 1_000_000).unwrap();
    assert_eq!((free.event.fee, free.accounts.redelegation_record.redelegation_count), (0, 1));
    assert!(free.transfers.is_empty());
}

#[test]
fn redelegation_is_refused() {
    let gar = |e: GarError| Some(Refusal::Gar(e));
    let refused = |ctx: RedelegateStake, amount: u64| redelegate_stake(ctx, amount, 1_000).err();
    let mut ctx = redelegate(0);
    ctx.delegator = key(8);
    assert_eq!(refused(ctx, 1), gar(GarError::NotDelegator));
    let mut ctx = redelegate(0);
    ctx.delegator_token_account.owner = key(9);
    assert_eq!(refused(ctx, 1), gar(GarError::InvalidParameter));
    let mut ctx = redelegate(0);
    ctx.stake_token_account.key = key(9);
    assert_eq!(refused(ctx, 1), gar(GarError::InvalidParameter));
    let mut ctx = redelegate(0);
    ctx.protocol_token_account.mint = key(9);
    assert_eq!(refused(ctx, 1), gar(GarError::InvalidParameter));
    assert_eq!(refused(redelegate(0), 0), gar(GarError::InvalidAmount));
    let mut ctx = redelegate(0);
    ctx.target_gateway.operator = key(1);
    assert_eq!(refused(ctx, 1), gar(GarError::RedelegateSameGateway));
    let mut ctx = redelegate(0);
    ctx.target_gateway.status = GatewayStatus::Leaving;
    assert_eq!(refused(ctx, 1), gar(GarError::GatewayNotJoined));
    let mut ctx = redelegate(0);
    ctx.target_gateway.settings.allow_delegated_staking = false;
    assert_eq!(refused(ctx, 1), gar(GarError::DelegationNotAllowed));
    let mut ctx = redelegate(0);
    ctx.target_gateway.operator = key(7);
    assert_eq!(refused(ctx, 1), gar(GarError::CannotDelegateToSelf));
    let mut ctx = redelegate(0);
    ctx.target_gateway.settings.allowlist_enabled = true;
    assert_eq!(refused(ctx.clone(), 1), gar(GarError::DelegateNotAllowed));
    assert_eq!(redelegate_stake_at(ctx, 1, 0, None).err(), Some(Refusal::NoProgramAddress));
    assert_eq!(refused(redelegate(0), 60_000_001), gar(GarError::InsufficientStake));
    assert_eq!(refused(redelegate(0), 50_000_001), gar(GarError::DelegationBelowMinimum));
    assert_eq!(refused(redelegate(6), 20_000_000), gar(GarError::DelegationBelowMinimum));
    assert_eq!(refused(redelegate(0), 60_000_000), None);
}
