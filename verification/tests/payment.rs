use ario_gar::addresses::{delegation_address, gateway_address, withdrawal_address};
use ario_gar::error::GarError;
use ario_gar::instructions::effects::{Holder, Refusal, TokenTransfer};
use ario_gar::instructions::funding_plan::{
    check_plan, pay_from_funding_plan, AccountData, FundingAccount, FundingEvent, FundingSourceKind,
    FundingSourceSpec, PayFromFundingPlan,
};
use ario_gar::instructions::payment::{
    deduct_delegation_for_payment, deduct_operator_stake_for_payment, deduct_withdrawal_for_payment,
    DeductDelegationForPayment, DeductOperatorStakeForPayment, DeductWithdrawalForPayment,
};
use ario_gar::pubkey::Pubkey;
use ario_gar::state::{
    Delegation, Gateway, GatewaySettings, GatewaySettings2, GatewayStats, GatewayStatus, GatewayWeights, Protocol,
    RegistryIndex, SchemaVersion, Withdrawal, WithdrawalCounter,
};

const MIN: u64 = 20_000_000_000;
const PAYER: u8 = 7;

fn key(n: u8) -> Pubkey {
    Pubkey::new_from_array([n; 32])
}

fn program() -> Pubkey {
    key(200)
}

fn gateway(operator: u8) -> Gateway {
    Gateway {
        operator: key(operator),
        label: "label".to_string(),
        fqdn: "example.org".to_string(),
        port: 443,
        protocol: Protocol::Https,
        properties: String::new(),
        note: String::new(),
        operator_stake: MIN + 1_000,
        total_delegated_stake: 100_000_000,
        status: GatewayStatus::Joined,
        start_timestamp: 0,
        leave_timestamp: None,
        leave_epoch_duration: 0,
        stats: GatewayStats::default(),
        weights: GatewayWeights::default(),
        settings: GatewaySettings2 {
            allow_delegated_staking: true,
            delegate_reward_share_ratio: 1000,
            min_delegation_amount: 10_000_000,
            allowlist_enabled: false,
        },
        registry_index: RegistryIndex::default(),
        observer_address: key(operator + 100),
        cumulative_reward_per_token: 0,
        bump: 255,
        version: SchemaVersion::new(1, 1, 0),
    }
}

fn settings() -> GatewaySettings {
    GatewaySettings {
        authority: key(50),
        mint: key(51),
        min_operator_stake: MIN,
        min_delegate_stake: 10_000_000,
        withdrawal_period: 2_592_000,
        max_expedited_withdrawal_penalty: 500_000,
        min_expedited_withdrawal_penalty: 100_000,
        min_expedited_withdrawal_amount: 1_000_000,
        max_delegates_per_gateway: 10_000,
        migration_active: true,
        migration_authority: key(52),
        stake_token_account: key(53),
        protocol_token_account: key(54),
        arns_program_id: key(55),
        total_staked: 900_000,
        total_delegated: 500_000_000,
        total_withdrawn: 700_000,
        bump: 255,
        version: SchemaVersion::new(1, 0, 0),
    }
}

fn delegation(gateway: u8, amount: u64) -> Delegation {
    Delegation {
        gateway: key(gateway),
        delegator: key(PAYER),
        amount,
        start_timestamp: 5,
        reward_debt: 0,
        bump: 9,
        version: SchemaVersion::new(0, 0, 0),
    }
}

fn withdrawal(id: u64, amount: u64) -> Withdrawal {
    Withdrawal {
        owner: key(PAYER),
        withdrawal_id: id,
        gateway: key(1),
        amount,
        created_at: 0,
        available_at: 9_999,
        is_delegate: true,
        is_exit_vault: false,
        is_protected: false,
        bump: 1,
        version: SchemaVersion::new(1, 0, 0),
    }
}

#[test]
fn delegation_pays_the_treasury() {
    let ctx = || DeductDelegationForPayment {
        settings: settings(),
        gateway: gateway(1),
        delegation: delegation(1, 30_000_000),
        stake_token_account: key(53),
        protocol_token_account: key(54),
        delegator: key(PAYER),
    };
    let pay = |c: DeductDelegationForPayment, amount: u64| deduct_delegation_for_payment(c, amount, 4);
    let o = pay(ctx(), 20_000_000).unwrap();
    assert_eq!(o.accounts.delegation.amount, 10_000_000);
    assert_eq!(o.accounts.gateway.total_delegated_stake, 80_000_000);
    assert_eq!(o.accounts.settings.total_delegated, 480_000_000);
    assert_eq!(
        o.transfers,
        vec![TokenTransfer { from: Holder::StakePool, to: Holder::Treasury, amount: 20_000_000 }]
    );
    assert!(o.event.is_delegate);
    assert!(pay(ctx(), 30_000_000).is_ok());
    assert_eq!(pay(ctx(), 0).err(), Some(GarError::InvalidAmount));
    assert_eq!(pay(ctx(), 30_000_001).err(), Some(GarError::InsufficientDelegationForPayment));
    assert_eq!(pay(ctx(), 20_000_001).err(), Some(GarError::DelegationBelowMinimum));
    let mut c = ctx();
    c.delegator = key(9);
    assert_eq!(pay(c, 1).err(), Some(GarError::NotDelegator));
    let mut c = ctx();
    c.gateway.status = GatewayStatus::Leaving;
    assert_eq!(pay(c, 1).err(), Some(GarError::GatewayNotJoined));
    let mut c = ctx();
    c.protocol_token_account = key(9);
    assert_eq!(pay(c, 1).err(), Some(GarError::InvalidParameter));
    let mut c = ctx();
    c.gateway.total_delegated_stake = 5;
    assert_eq!(pay(c, 20_000_000).err(), Some(GarError::ArithmeticUnderflow));
}

#[test]
fn operator_stake_pays_the_treasury() {
    let ctx = || DeductOperatorStakeForPayment {
        settings: settings(),
        gateway: gateway(PAYER),
        stake_token_account: key(53),
        protocol_token_account: key(54),
        operator: key(PAYER),
    };
    let pay = |c: DeductOperatorStakeForPayment, amount: u64| deduct_operator_stake_for_payment(c, amount, 4);
    let o = pay(ctx(), 1_000).unwrap();
    assert_eq!(o.accounts.gateway.operator_stake, MIN);
    assert_eq!(o.accounts.settings.total_staked, 899_000);
    assert!(!o.event.is_delegate);
    assert_eq!(pay(ctx(), 0).err(), Some(GarError::InvalidAmount));
    assert_eq!(pay(ctx(), 1_001).err(), Some(GarError::StakeBelowMinimum));
    assert_eq!(pay(ctx(), MIN + 1_001).err(), Some(GarError::InsufficientOperatorStakeForPayment));
    let mut c = ctx();
    c.operator = key(9);
    assert_eq!(pay(c, 1).err(), Some(GarError::NotOperator));
    let mut c = ctx();
    c.stake_token_account = key(9);
    assert_eq!(pay(c, 1).err(), Some(GarError::InvalidParameter));
    let mut c = ctx();
    c.gateway.status = GatewayStatus::Leaving;
    assert_eq!(pay(c, 1).err(), Some(GarError::GatewayNotJoined));
}

#[test]
fn withdrawal_pays_the_treasury() {
    let ctx = || DeductWithdrawalForPayment {
        settings: settings(),
        withdrawal: withdrawal(3, 500),
        stake_token_account: key(53),
        protocol_token_account: key(54),
        owner: key(PAYER),
    };
    let pay = |c: DeductWithdrawalForPayment, amount: u64| deduct_withdrawal_for_payment(c, amount, 4);
    let o = pay(ctx(), 200).unwrap();
    assert_eq!((o.accounts.withdrawal.amount, o.event.residue), (300, 300));
    assert_eq!(o.accounts.settings.total_withdrawn, 699_800);
    assert_eq!(pay(ctx(), 0).err(), Some(GarError::InvalidAmount));
    assert_eq!(pay(ctx(), 501).err(), Some(GarError::InsufficientWithdrawalForPayment));
    let mut c = ctx();
    c.owner = key(9);
    assert_eq!(pay(c, 1).err(), Some(GarError::InvalidOwner));
    let mut c = ctx();
    c.withdrawal.is_protected = true;
    assert_eq!(pay(c, 1).err(), Some(GarError::ProtectedVault));
    let mut c = ctx();
    c.stake_token_account = key(9);
    assert_eq!(pay(c, 1).err(), Some(GarError::InvalidParameter));
}

fn source(kind: FundingSourceKind, amount: u64) -> FundingSourceSpec {
    FundingSourceSpec { kind, amount }
}

const BALANCE: FundingSourceKind = FundingSourceKind::Balance;
const DELEGATION: FundingSourceKind = FundingSourceKind::Delegation;
const OPERATOR: FundingSourceKind = FundingSourceKind::OperatorStake;
const VAULT: FundingSourceKind = FundingSourceKind::Withdrawal;

#[test]
fn plans_are_checked_on_their_face() {
    assert_eq!(check_plan(&vec![], 0), Err(GarError::EmptyFundingPlan));
    assert_eq!(check_plan(&vec![source(BALANCE, 1); 6], 6), Err(GarError::TooManyFundingSources));
    assert_eq!(check_plan(&vec![source(DELEGATION, 1); 4], 4), Err(GarError::TooManyDelegationSources));
    assert_eq!(check_plan(&vec![source(OPERATOR, 1); 2], 2), Err(GarError::OnlyOneOperatorStakeSource));
    assert_eq!(check_plan(&vec![source(BALANCE, 0)], 0), Err(GarError::ZeroFundingSourceAmount));
    assert_eq!(
        check_plan(&vec![source(BALANCE, u64::MAX), source(BALANCE, 1)], 0),
        Err(GarError::ArithmeticOverflow)
    );
    assert_eq!(check_plan(&vec![source(BALANCE, 2)], 3), Err(GarError::FundingPlanAmountMismatch));
    assert_eq!(check_plan(&vec![source(DELEGATION, 1); 3], 3), Ok(()));
}

fn gateway_account(g: Gateway) -> FundingAccount {
    let key = gateway_address(&g.operator, &program()).unwrap().0;
    FundingAccount { key, owned: true, data: AccountData::Gateway(g) }
}

fn delegation_account(d: Delegation) -> FundingAccount {
    let key = delegation_address(&d.gateway, &d.delegator, &program()).unwrap().0;
    FundingAccount { key, owned: true, data: AccountData::Delegation(d) }
}

fn vault_account(w: Withdrawal) -> FundingAccount {
    let key = withdrawal_address(&w.owner, w.withdrawal_id, &program()).unwrap().0;
    FundingAccount { key, owned: true, data: AccountData::Withdrawal(w) }
}

fn new_vault(id: u64) -> FundingAccount {
    let key = withdrawal_address(&key(PAYER), id, &program()).unwrap().0;
    FundingAccount { key, owned: false, data: AccountData::Empty }
}

fn plan(accounts: Vec<FundingAccount>) -> PayFromFundingPlan {
    PayFromFundingPlan {
        settings: settings(),
        stake_token_account: key(53),
        protocol_token_account: key(54),
        has_payer_token_account: true,
        payer: key(PAYER),
        withdrawal_counter: WithdrawalCounter {
            owner: Pubkey::default(),
            next_id: 0,
            bump: 0,
            version: SchemaVersion::new(0, 0, 0),
        },
        withdrawal_counter_bump: 44,
        remaining: (0..accounts.len()).collect(),
        accounts,
        program_id: program(),
    }
}

#[test]
fn plan_draws_on_every_source() {
    let ctx = plan(vec![
        gateway_account(gateway(1)),
        delegation_account(delegation(1, 30_000_000)),
        gateway_account(gateway(PAYER)),
        vault_account(withdrawal(3, 500)),
        new_vault(0),
    ]);
    let sources =
        vec![source(BALANCE, 40), source(DELEGATION, 25_000_000), source(OPERATOR, 1_000), source(VAULT, 200)];
    let before = ctx.settings;
    let o = pay_from_funding_plan(ctx, sources, 25_001_240, 1, 1_000).unwrap();
    assert_eq!(
        o.transfers,
        vec![
            TokenTransfer { from: Holder::StakePool, to: Holder::Treasury, amount: 25_001_200 },
            TokenTransfer { from: Holder::Wallet, to: Holder::Treasury, amount: 40 },
        ]
    );
    match &o.accounts.accounts[0].data {
        AccountData::Gateway(g) => assert_eq!(g.total_delegated_stake, 70_000_000),
        _ => panic!("gateway expected"),
    }
    match &o.accounts.accounts[1].data {
        AccountData::Delegation(d) => assert_eq!(d.amount, 0),
        _ => panic!("delegation expected"),
    }
    match &o.accounts.accounts[2].data {
        AccountData::Gateway(g) => assert_eq!(g.operator_stake, MIN),
        _ => panic!("gateway expected"),
    }
    match &o.accounts.accounts[3].data {
        AccountData::Withdrawal(w) => assert_eq!(w.amount, 300),
        _ => panic!("withdrawal expected"),
    }
    match &o.accounts.accounts[4].data {
        AccountData::Withdrawal(w) => {
            assert_eq!((w.amount, w.withdrawal_id, w.available_at), (5_000_000, 0, 1_000 + 2_592_000));
            assert_eq!((w.gateway, w.owner, w.is_delegate), (key(1), key(PAYER), true));
            assert_eq!(w.bump, withdrawal_address(&key(PAYER), 0, &program()).unwrap().1);
        },
        _ => panic!("withdrawal expected"),
    }
    let counter = o.accounts.withdrawal_counter;
    assert_eq!((counter.owner, counter.next_id, counter.bump), (key(PAYER), 1, 44));
    assert_eq!(o.accounts.settings.total_delegated, 470_000_000);
    assert_eq!(o.accounts.settings.total_staked, 899_000);
    assert_eq!(o.accounts.settings.total_withdrawn, 700_000 - 200 + 5_000_000);
    // Together the counters fall by what leaves the stake pool.
    let counted = |s: &GatewaySettings| s.total_staked + s.total_delegated + s.total_withdrawn;
    assert_eq!(counted(&before) - counted(&o.accounts.settings), 25_001_200);
    assert_eq!(o.event.len(), 5);
    assert!(matches!(o.event[0], FundingEvent::Stake(e) if e.is_delegate && e.amount == 25_000_000));
    assert!(matches!(o.event[1], FundingEvent::Stake(e) if !e.is_delegate));
    assert!(matches!(o.event[2], FundingEvent::Withdrawal(e) if e.residue == 300));
    assert!(matches!(o.event[3], FundingEvent::Residue(e) if e.amount == 5_000_000));
    assert!(matches!(o.event[4], FundingEvent::Applied(e) if e.source_count == 4 && e.created_residue_vault));
}

#[test]
fn residue_vaults_are_numbered_from_the_counter() {
    let mut ctx = plan(vec![
        gateway_account(gateway(1)),
        delegation_account(delegation(1, 30_000_000)),
        gateway_account(gateway(2)),
        delegation_account(delegation(2, 26_000_000)),
        new_vault(7),
        new_vault(8),
    ]);
    ctx.withdrawal_counter.next_id = 7;
    let sources = vec![source(DELEGATION, 25_000_000), source(DELEGATION, 20_000_000)];
    let before = ctx.settings;
    let o = pay_from_funding_plan(ctx, sources, 45_000_000, 2, 1_000).unwrap();
    let vault = |place: usize| match &o.accounts.accounts[place].data {
        AccountData::Withdrawal(w) => (w.withdrawal_id, w.gateway, w.amount, w.owner),
        _ => panic!("withdrawal expected"),
    };
    assert_eq!(vault(4), (7, key(1), 5_000_000, key(PAYER)));
    assert_eq!(vault(5), (8, key(2), 6_000_000, key(PAYER)));
    assert_eq!(o.accounts.withdrawal_counter.next_id, 9);
    assert_eq!(o.accounts.settings.total_delegated, before.total_delegated - 45_000_000 - 11_000_000);
    assert_eq!(o.accounts.settings.total_withdrawn, before.total_withdrawn + 11_000_000);
}

#[test]
fn plan_without_a_residue_opens_no_vault() {
    let ctx = plan(vec![gateway_account(gateway(1)), delegation_account(delegation(1, 30_000_000))]);
    let o = pay_from_funding_plan(ctx, vec![source(DELEGATION, 20_000_000)], 20_000_000, 0, 0).unwrap();
    assert_eq!(o.transfers.len(), 1);
    assert_eq!(o.accounts.withdrawal_counter.next_id, 0);
}

fn refusal(ctx: PayFromFundingPlan, sources: Vec<FundingSourceSpec>, residues: u8) -> Option<Refusal> {
    let total: u64 = sources.iter().map(|s| s.amount).sum();
    pay_from_funding_plan(ctx, sources, total, residues, 0).err()
}

#[test]
fn plan_is_refused_for_its_accounts() {
    let gar = |e: GarError| Some(Refusal::Gar(e));
    let mut ctx = plan(vec![]);
    ctx.stake_token_account = key(9);
    assert_eq!(refusal(ctx, vec![source(BALANCE, 1)], 0), gar(GarError::InvalidParameter));
    let mut ctx = plan(vec![]);
    ctx.protocol_token_account = key(9);
    assert_eq!(refusal(ctx, vec![source(BALANCE, 1)], 0), gar(GarError::InvalidParameter));
    let mut ctx = plan(vec![]);
    ctx.has_payer_token_account = false;
    assert_eq!(
        refusal(ctx, vec![source(BALANCE, 1)], 0),
        gar(GarError::MissingPayerTokenAccountForFundingSource)
    );
    for kind in [DELEGATION, OPERATOR, VAULT] {
        assert_eq!(
            refusal(plan(vec![]), vec![source(kind, 1)], 0),
            gar(GarError::MissingFundingSourceAccount)
        );
    }
    let extra = plan(vec![vault_account(withdrawal(3, 500))]);
    assert_eq!(refusal(extra, vec![source(BALANCE, 1)], 0), gar(GarError::ExtraneousFundingSourceAccount));
    let other = plan(vec![vault_account(withdrawal(3, 500))]);
    assert_eq!(refusal(other, vec![source(OPERATOR, 1)], 0), Some(Refusal::WrongAccountType));
}

#[test]
fn plan_is_refused_for_its_gateways() {
    let gar = |e: GarError| Some(Refusal::Gar(e));
    let mut a = gateway_account(gateway(PAYER));
    a.key = key(9);
    assert_eq!(refusal(plan(vec![a]), vec![source(OPERATOR, 1)], 0), gar(GarError::InvalidGatewayAccount));
    let mut g = gateway(PAYER);
    g.status = GatewayStatus::Leaving;
    let a = gateway_account(g);
    assert_eq!(refusal(plan(vec![a]), vec![source(OPERATOR, 1)], 0), gar(GarError::GatewayNotJoined));
    let a = gateway_account(gateway(1));
    assert_eq!(refusal(plan(vec![a]), vec![source(OPERATOR, 1)], 0), gar(GarError::NotOperator));
    let a = || vec![gateway_account(gateway(PAYER))];
    assert_eq!(refusal(plan(a()), vec![source(OPERATOR, 1_001)], 0), gar(GarError::StakeBelowMinimum));
    assert_eq!(
        refusal(plan(a()), vec![source(OPERATOR, 2 * MIN)], 0),
        gar(GarError::InsufficientOperatorStakeForPayment)
    );
    let mut twice = plan(vec![gateway_account(gateway(1)), delegation_account(delegation(1, 90_000_000))]);
    twice.remaining = vec![0, 1, 0, 1];
    assert_eq!(
        refusal(twice, vec![source(DELEGATION, 10_000_000), source(DELEGATION, 10_000_000)], 0),
        gar(GarError::DuplicateGatewayInSources)
    );
}

#[test]
fn plan_is_refused_for_its_delegations() {
    let gar = |e: GarError| Some(Refusal::Gar(e));
    let ctx = |d: FundingAccount| plan(vec![gateway_account(gateway(1)), d]);
    let mut d = delegation_account(delegation(1, 30_000_000));
    d.key = key(9);
    assert_eq!(refusal(ctx(d), vec![source(DELEGATION, 1)], 0), gar(GarError::InvalidParameter));
    let mut d = delegation_account(delegation(1, 30_000_000));
    d.data = AccountData::Delegation(Delegation { delegator: key(9), ..delegation(1, 30_000_000) });
    assert_eq!(refusal(ctx(d), vec![source(DELEGATION, 1)], 0), gar(GarError::NotDelegator));
    let d = || delegation_account(delegation(1, 30_000_000));
    assert_eq!(
        refusal(ctx(d()), vec![source(DELEGATION, 30_000_001)], 0),
        gar(GarError::InsufficientDelegationForPayment)
    );
    assert_eq!(
        refusal(ctx(d()), vec![source(DELEGATION, 25_000_000)], 0),
        gar(GarError::MismatchedResidueVaultCount)
    );
    assert_eq!(
        refusal(ctx(d()), vec![source(DELEGATION, 25_000_000)], 1),
        gar(GarError::MissingResidueVault)
    );
    let mut wrong = ctx(d());
    wrong.accounts.push(new_vault(1));
    wrong.remaining.push(2);
    assert_eq!(refusal(wrong, vec![source(DELEGATION, 25_000_000)], 1), gar(GarError::InvalidParameter));
    let mut used = ctx(d());
    let mut vault = new_vault(0);
    vault.data = AccountData::Other;
    used.accounts.push(vault);
    used.remaining.push(2);
    assert_eq!(refusal(used, vec![source(DELEGATION, 25_000_000)], 1), gar(GarError::InvalidParameter));
    let mut drained = gateway(1);
    drained.total_delegated_stake = 7;
    let low = plan(vec![gateway_account(drained), d()]);
    assert_eq!(refusal(low, vec![source(DELEGATION, 20_000_000)], 0), gar(GarError::ArithmeticUnderflow));
}

#[test]
fn plan_is_refused_for_its_vaults() {
    let gar = |e: GarError| Some(Refusal::Gar(e));
    let pay = |a: FundingAccount, amount: u64| refusal(plan(vec![a]), vec![source(VAULT, amount)], 0);
    let mut a = vault_account(withdrawal(3, 500));
    a.owned = false;
    assert_eq!(pay(a, 1), gar(GarError::InvalidParameter));
    let mut a = vault_account(withdrawal(3, 500));
    a.key = key(9);
    assert_eq!(pay(a, 1), gar(GarError::InvalidParameter));
    let a = vault_account(Withdrawal { owner: key(9), ..withdrawal(3, 500) });
    assert_eq!(pay(a, 1), gar(GarError::InvalidOwner));
    let a = vault_account(Withdrawal { is_protected: true, ..withdrawal(3, 500) });
    assert_eq!(pay(a, 1), gar(GarError::ProtectedVault));
    let a = vault_account(withdrawal(3, 500));
    assert_eq!(pay(a, 501), gar(GarError::InsufficientWithdrawalForPayment));
}
