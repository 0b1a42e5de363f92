//! Paying the treasury out of several sources at once.

use vstd::prelude::*;
use crate::addresses::{
    delegation_address, delegation_pda, gateway_address, gateway_pda, withdrawal_address, withdrawal_pda,
};
use crate::arith::{cap_u64, falls_by, lemma_sum_of_equal_terms, minus_or_zero, sum_of};
use crate::error::GarError;
use crate::events::{
    FundingPlanAppliedEvent, ResidueVaultCreatedEvent, StakePaymentEvent, WithdrawalPaymentEvent,
};
use crate::instructions::effects::{transfer, transfer_if_any, Holder, Outcome, Refusal, TokenTransfer};
use crate::pubkey::Pubkey;
use crate::state::accounts::{
    Delegation, Gateway, GatewaySettings, GatewayStatus, Withdrawal, WithdrawalCounter,
};
use crate::state::constants::{
    withdrawal_counter_version, withdrawal_version, MAX_DELEGATION_SOURCES, MAX_FUNDING_SOURCES,
};
use crate::state::rewards::{
    gains, lemma_settled_gains, settle_delegate_rewards, settled_delegation, settled_gateway, settled_stake,
};

verus! {

/// Where a part of a payment comes from.
#[derive(Clone, Copy, Debug, PartialEq, Eq, Structural)]
pub enum FundingSourceKind {
    /// The payer's token account.
    Balance,
    /// A delegation of the payer; takes two accounts, the gateway and the
    /// delegation. A remainder under the gateway's minimum moves to a new
    /// withdrawal vault.
    Delegation,
    /// The operator stake of the payer's gateway; takes one account, the gateway.
    /// What stays must be at least the minimum operator stake.
    OperatorStake,
    /// A withdrawal vault of the payer; takes one account, the vault.
    Withdrawal,
}

/// One part of a payment.
#[derive(Clone, Copy, Debug, PartialEq, Eq, Structural)]
pub struct FundingSourceSpec {
    pub kind: FundingSourceKind,
    pub amount: u64,
}

/// What an account holds.
#[derive(Clone, Debug)]
pub enum AccountData {
    Gateway(Gateway),
    Delegation(Delegation),
    Withdrawal(Withdrawal),
    /// No data at all.
    Empty,
    /// Anything else.
    Other,
}

/// An account that a funding plan draws on.
#[derive(Clone, Debug)]
pub struct FundingAccount {
    pub key: Pubkey,
    /// Whether the account belongs to this program.
    pub owned: bool,
    pub data: AccountData,
}

/// The accounts of `pay_from_funding_plan`. The sources take the accounts that
/// they need off the front of `remaining`, which gives for each its place in
/// `accounts`; the vaults for the residues come behind, in the order of the
/// delegations that leave them. An account that is passed twice stands in
/// `accounts` once.
#[derive(Clone, Debug)]
pub struct PayFromFundingPlan {
    pub settings: GatewaySettings,
    pub stake_token_account: Pubkey,
    pub protocol_token_account: Pubkey,
    /// Whether the payer's token account was passed.
    pub has_payer_token_account: bool,
    pub payer: Pubkey,
    pub withdrawal_counter: WithdrawalCounter,
    /// The bump seed of the counter's address.
    pub withdrawal_counter_bump: u8,
    pub accounts: Vec<FundingAccount>,
    pub remaining: Vec<usize>,
    pub program_id: Pubkey,
}

/// What a funding plan reports, in this order: one event per stake source, one
/// per new vault, and the summary.
#[derive(Clone, Copy, Debug)]
pub enum FundingEvent {
    Stake(StakePaymentEvent),
    Withdrawal(WithdrawalPaymentEvent),
    Residue(ResidueVaultCreatedEvent),
    Applied(FundingPlanAppliedEvent),
}

/// How many of the first `n` sources are of one kind.
pub open spec fn count_of(sources: Seq<FundingSourceSpec>, kind: FundingSourceKind, n: int) -> int
    decreases n,
{
    if n <= 0 {
        0
    } else {
        count_of(sources, kind, n - 1) + if sources[n - 1].kind == kind {
            1int
        } else {
            0
        }
    }
}

/// The sum of the first `n` amounts.
pub open spec fn total_of(sources: Seq<FundingSourceSpec>, n: int) -> int
    decreases n,
{
    if n <= 0 {
        0
    } else {
        total_of(sources, n - 1) + sources[n - 1].amount
    }
}

/// What is wrong with the amounts from source `i` on, if anything: the first one
/// that is zero, or at which the sum no longer fits.
pub open spec fn amounts_refusal(sources: Seq<FundingSourceSpec>, i: int) -> Option<GarError>
    decreases sources.len() - i,
{
    if i >= sources.len() {
        None
    } else if sources[i].amount == 0 {
        Some(GarError::ZeroFundingSourceAmount)
    } else if total_of(sources, i + 1) > u64::MAX {
        Some(GarError::ArithmeticOverflow)
    } else {
        amounts_refusal(sources, i + 1)
    }
}

/// What is wrong with a plan on its face, if anything.
pub open spec fn plan_refusal(sources: Seq<FundingSourceSpec>, expected_total: u64) -> Option<GarError> {
    let n = sources.len() as int;
    if n == 0 {
        Some(GarError::EmptyFundingPlan)
    } else if n > MAX_FUNDING_SOURCES {
        Some(GarError::TooManyFundingSources)
    } else if count_of(sources, FundingSourceKind::Delegation, n) > MAX_DELEGATION_SOURCES {
        Some(GarError::TooManyDelegationSources)
    } else if count_of(sources, FundingSourceKind::OperatorStake, n) > 1 {
        Some(GarError::OnlyOneOperatorStakeSource)
    } else if amounts_refusal(sources, 0) is Some {
        amounts_refusal(sources, 0)
    } else if total_of(sources, n) != expected_total {
        Some(GarError::FundingPlanAmountMismatch)
    } else {
        None
    }
}

proof fn lemma_counts_bounded(sources: Seq<FundingSourceSpec>, kind: FundingSourceKind, n: int)
    requires
        0 <= n,
    ensures
        0 <= count_of(sources, kind, n) <= n,
    decreases n,
{
    if n > 0 {
        lemma_counts_bounded(sources, kind, n - 1);
    }
}

proof fn lemma_total_grows(sources: Seq<FundingSourceSpec>, i: int, n: int)
    requires
        0 <= i <= n,
    ensures
        0 <= total_of(sources, i) <= total_of(sources, n),
    decreases n,
{
    if i < n {
        lemma_total_grows(sources, i, n - 1);
    } else if n > 0 {
        lemma_total_grows(sources, n - 1, n - 1);
    }
}

/// Checks a plan on its face: how many sources of which kind it has, and that
/// their amounts, none of them zero, add up to what the caller expects.
pub fn check_plan(sources: &Vec<FundingSourceSpec>, expected_total: u64) -> (r: Result<(), GarError>)
    ensures
        match r {
            Err(e) => plan_refusal(sources@, expected_total) == Some(e),
            Ok(()) => plan_refusal(sources@, expected_total) is None,
        },
{
    if sources.len() == 0 {
        return Err(GarError::EmptyFundingPlan);
    }
    if sources.len() > MAX_FUNDING_SOURCES {
        return Err(GarError::TooManyFundingSources);
    }
    let mut delegation_count: usize = 0;
    let mut operator_stake_count: usize = 0;
    let mut i: usize = 0;
    while i < sources.len()
        invariant
            i <= sources@.len(),
            sources@.len() <= MAX_FUNDING_SOURCES,
            delegation_count == count_of(sources@, FundingSourceKind::Delegation, i as int),
            operator_stake_count == count_of(sources@, FundingSourceKind::OperatorStake, i as int),
        decreases sources@.len() - i,
    {
        proof {
            lemma_counts_bounded(sources@, FundingSourceKind::Delegation, i as int);
            lemma_counts_bounded(sources@, FundingSourceKind::OperatorStake, i as int);
        }
        match sources[i].kind {
            FundingSourceKind::Delegation => {
                delegation_count = delegation_count + 1;
            },
            FundingSourceKind::OperatorStake => {
                operator_stake_count = operator_stake_count + 1;
            },
            FundingSourceKind::Balance => {},
            FundingSourceKind::Withdrawal => {},
        }
        i = i + 1;
    }
    if delegation_count > MAX_DELEGATION_SOURCES {
        return Err(GarError::TooManyDelegationSources);
    }
    if operator_stake_count > 1 {
        return Err(GarError::OnlyOneOperatorStakeSource);
    }
    let mut computed_total: u64 = 0;
    let mut j: usize = 0;
    while j < sources.len()
        invariant
            j <= sources@.len(),
            computed_total == total_of(sources@, j as int),
            amounts_refusal(sources@, 0) == amounts_refusal(sources@, j as int),
            0 < sources@.len() <= MAX_FUNDING_SOURCES,
            count_of(sources@, FundingSourceKind::Delegation, sources@.len() as int) <= MAX_DELEGATION_SOURCES,
            count_of(sources@, FundingSourceKind::OperatorStake, sources@.len() as int) <= 1,
        decreases sources@.len() - j,
    {
        if sources[j].amount == 0 {
            return Err(GarError::ZeroFundingSourceAmount);
        }
        match computed_total.checked_add(sources[j].amount) {
            Some(sum) => {
                computed_total = sum;
            },
            None => {
                return Err(GarError::ArithmeticOverflow);
            },
        }
        j = j + 1;
    }
    if computed_total != expected_total {
        return Err(GarError::FundingPlanAmountMismatch);
    }
    Ok(())
}

/// What is wrong with a gateway that a source draws on, if anything: it must lie
/// at its own address, be drawn on for the first time, and be joined.
pub open spec fn source_gateway_refusal(
    key: Pubkey,
    expected: Pubkey,
    gateway: Gateway,
    seen: Seq<Pubkey>,
) -> Option<GarError> {
    if key != expected {
        Some(GarError::InvalidGatewayAccount)
    } else if seen.contains(gateway.operator) {
        Some(GarError::DuplicateGatewayInSources)
    } else if gateway.status != GatewayStatus::Joined {
        Some(GarError::GatewayNotJoined)
    } else {
        None
    }
}

/// Checks a gateway that a source draws on. `expected` is the address that the
/// gateway's operator gives.
pub fn check_source_gateway(
    key: &Pubkey,
    expected: &Pubkey,
    gateway: &Gateway,
    seen: &Vec<Pubkey>,
) -> (r: Result<(), GarError>)
    ensures
        match r {
            Err(e) => source_gateway_refusal(*key, *expected, *gateway, seen@) == Some(e),
            Ok(()) => source_gateway_refusal(*key, *expected, *gateway, seen@) is None,
        },
{
    if *key != *expected {
        return Err(GarError::InvalidGatewayAccount);
    }
    let mut i: usize = 0;
    while i < seen.len()
        invariant
            i <= seen@.len(),
            *key == *expected,
            forall|j: int| 0 <= j < i ==> seen@[j] != gateway.operator,
        decreases seen@.len() - i,
    {
        if seen[i] == gateway.operator {
            assert(seen@.contains(gateway.operator));
            return Err(GarError::DuplicateGatewayInSources);
        }
        i = i + 1;
    }
    assert(!seen@.contains(gateway.operator));
    if gateway.status != GatewayStatus::Joined {
        return Err(GarError::GatewayNotJoined);
    }
    Ok(())
}

/// What a draw on a delegation leaves under the gateway's minimum, which then
/// moves to a vault of its own; nothing if the rest is zero or large enough.
pub open spec fn residue_of(settled_amount: int, amount: int, min_delegation_amount: int) -> int {
    let post = settled_amount - amount;
    if post == 0 || post >= min_delegation_amount {
        0
    } else {
        post
    }
}

/// Why a draw on a delegation is refused, if it is.
pub open spec fn delegation_draw_refusal(gateway: Gateway, delegation: Delegation, amount: u64) -> Option<GarError> {
    let settled = settled_delegation(gateway.cumulative_reward_per_token, delegation);
    let residue = residue_of(
        settled.amount as int,
        amount as int,
        gateway.settings.min_delegation_amount as int,
    );
    if settled.amount < amount {
        Some(GarError::InsufficientDelegationForPayment)
    } else if settled_stake(gateway, delegation) < amount + residue {
        Some(GarError::ArithmeticUnderflow)
    } else {
        None
    }
}

/// A gateway and one of its delegations after a draw of `amount`, with what is
/// left for a vault.
pub open spec fn delegation_drawn(gateway: Gateway, delegation: Delegation, amount: u64) -> (Gateway, Delegation, int) {
    let g = settled_gateway(gateway, delegation);
    let d = settled_delegation(gateway.cumulative_reward_per_token, delegation);
    let residue = residue_of(d.amount as int, amount as int, g.settings.min_delegation_amount as int);
    (
        Gateway { total_delegated_stake: (g.total_delegated_stake - amount - residue) as u64, ..g },
        Delegation { amount: (d.amount - amount - residue) as u64, ..d },
        residue,
    )
}

/// Takes `amount` out of a delegation once its rewards are settled. What would
/// stay below the gateway's minimum is taken out as well and returned.
pub fn draw_delegation(gateway: &mut Gateway, delegation: &mut Delegation, amount: u64) -> (r: Result<u64, GarError>)
    ensures
        match r {
            Err(e) => {
                &&& delegation_draw_refusal(*old(gateway), *old(delegation), amount) == Some(e)
                &&& *final(gateway) == settled_gateway(*old(gateway), *old(delegation))
                &&& *final(delegation) == settled_delegation(
                    old(gateway).cumulative_reward_per_token,
                    *old(delegation),
                )
            },
            Ok(residue) => {
                &&& delegation_draw_refusal(*old(gateway), *old(delegation), amount) is None
                &&& delegation_drawn(*old(gateway), *old(delegation), amount) == (
                    *final(gateway),
                    *final(delegation),
                    residue as int,
                )
            },
        },
{
    settle_delegate_rewards(gateway, delegation);
    if delegation.amount < amount {
        return Err(GarError::InsufficientDelegationForPayment);
    }
    let post: u64 = delegation.amount - amount;
    if post == 0 || post >= gateway.settings.min_delegation_amount {
        if gateway.total_delegated_stake < amount {
            return Err(GarError::ArithmeticUnderflow);
        }
        delegation.amount = post;
        gateway.total_delegated_stake = gateway.total_delegated_stake - amount;
        Ok(0)
    } else {
        let combined: u64 = amount + post;
        if gateway.total_delegated_stake < combined {
            return Err(GarError::ArithmeticUnderflow);
        }
        delegation.amount = 0;
        gateway.total_delegated_stake = gateway.total_delegated_stake - combined;
        Ok(post)
    }
}

/// Why a draw on operator stake is refused, if it is.
pub open spec fn operator_draw_refusal(
    gateway: Gateway,
    payer: Pubkey,
    min_operator_stake: u64,
    amount: u64,
) -> Option<GarError> {
    if gateway.operator != payer {
        Some(GarError::NotOperator)
    } else if gateway.operator_stake < amount {
        Some(GarError::InsufficientOperatorStakeForPayment)
    } else if gateway.operator_stake - amount < min_operator_stake {
        Some(GarError::StakeBelowMinimum)
    } else {
        None
    }
}

/// Takes `amount` out of operator stake, of which at least the minimum must stay.
pub fn draw_operator_stake(
    gateway: &mut Gateway,
    payer: &Pubkey,
    min_operator_stake: u64,
    amount: u64,
) -> (r: Result<(), GarError>)
    ensures
        match r {
            Err(e) => {
                &&& operator_draw_refusal(*old(gateway), *payer, min_operator_stake, amount) == Some(e)
                &&& *final(gateway) == *old(gateway)
            },
            Ok(()) => {
                &&& operator_draw_refusal(*old(gateway), *payer, min_operator_stake, amount) is None
                &&& *final(gateway) == (Gateway {
                    operator_stake: (old(gateway).operator_stake - amount) as u64,
                    ..*old(gateway)
                })
            },
        },
{
    if gateway.operator != *payer {
        return Err(GarError::NotOperator);
    }
    if gateway.operator_stake < amount {
        return Err(GarError::InsufficientOperatorStakeForPayment);
    }
    let post: u64 = gateway.operator_stake - amount;
    if post < min_operator_stake {
        return Err(GarError::StakeBelowMinimum);
    }
    gateway.operator_stake = post;
    Ok(())
}

/// Why a draw on a withdrawal vault is refused, if it is.
pub open spec fn withdrawal_draw_refusal(
    key: Pubkey,
    expected: Pubkey,
    withdrawal: Withdrawal,
    amount: u64,
) -> Option<GarError> {
    if key != expected {
        Some(GarError::InvalidParameter)
    } else if withdrawal.is_protected {
        Some(GarError::ProtectedVault)
    } else if withdrawal.amount < amount {
        Some(GarError::InsufficientWithdrawalForPayment)
    } else {
        None
    }
}

/// Takes `amount` out of a withdrawal vault that lies at the `expected` address.
/// The protected vault of a gateway that left cannot be spent.
pub fn draw_withdrawal(
    key: &Pubkey,
    expected: &Pubkey,
    withdrawal: &mut Withdrawal,
    amount: u64,
) -> (r: Result<(), GarError>)
    ensures
        match r {
            Err(e) => {
                &&& withdrawal_draw_refusal(*key, *expected, *old(withdrawal), amount) == Some(e)
                &&& *final(withdrawal) == *old(withdrawal)
            },
            Ok(()) => {
                &&& withdrawal_draw_refusal(*key, *expected, *old(withdrawal), amount) is None
                &&& *final(withdrawal) == (Withdrawal {
                    amount: (old(withdrawal).amount - amount) as u64,
                    ..*old(withdrawal)
                })
            },
        },
{
    if *key != *expected {
        return Err(GarError::InvalidParameter);
    }
    if withdrawal.is_protected {
        return Err(GarError::ProtectedVault);
    }
    if withdrawal.amount < amount {
        return Err(GarError::InsufficientWithdrawalForPayment);
    }
    withdrawal.amount = withdrawal.amount - amount;
    Ok(())
}

/// What the sources of a plan are drawn against.
#[derive(Clone, Debug)]
pub struct PlanEnv {
    pub payer: Pubkey,
    pub program_id: Pubkey,
    pub min_operator_stake: u64,
    pub has_payer_token_account: bool,
    pub remaining: Vec<usize>,
    pub now: i64,
}

/// How far the sources of a plan have been drawn on.
pub struct Draws {
    pub accounts: Vec<FundingAccount>,
    /// How many of the remaining accounts have been taken.
    pub next: usize,
    /// Drawn from the payer's token account.
    pub balance: u64,
    /// Drawn from the stake pool, which is what the next three add up to.
    pub pool: u64,
    pub delegated: u64,
    pub staked: u64,
    pub withdrawn: u64,
    /// The operator and the amount of each residue.
    pub residues: Vec<(Pubkey, u64)>,
    /// The operators of the gateways that were drawn on.
    pub seen: Vec<Pubkey>,
    pub events: Vec<FundingEvent>,
}

/// The mathematical counterpart of `Draws`.
pub struct DrawState {
    pub accounts: Seq<FundingAccount>,
    pub next: int,
    pub balance: int,
    pub pool: int,
    pub delegated: int,
    pub staked: int,
    pub withdrawn: int,
    pub residues: Seq<(Pubkey, u64)>,
    pub seen: Seq<Pubkey>,
    pub events: Seq<FundingEvent>,
}

impl View for Draws {
    type V = DrawState;

    open spec fn view(&self) -> DrawState {
        DrawState {
            accounts: self.accounts@,
            next: self.next as int,
            balance: self.balance as int,
            pool: self.pool as int,
            delegated: self.delegated as int,
            staked: self.staked as int,
            withdrawn: self.withdrawn as int,
            residues: self.residues@,
            seen: self.seen@,
            events: self.events@,
        }
    }
}

/// Every place in the list of remaining accounts is that of an account.
pub open spec fn places_valid(remaining: Seq<usize>, accounts: Seq<FundingAccount>) -> bool {
    forall|i: int| 0 <= i < remaining.len() ==> (#[trigger] remaining[i]) < accounts.len()
}

pub open spec fn stake_payment(env: PlanEnv, gateway: Pubkey, amount: u64, is_delegate: bool) -> FundingEvent {
    FundingEvent::Stake(StakePaymentEvent { payer: env.payer, gateway, amount, is_delegate, timestamp: env.now })
}

/// The draws after one more part from the payer's token account.
pub open spec fn after_balance(env: PlanEnv, st: DrawState, amount: u64) -> Result<DrawState, Refusal> {
    if !env.has_payer_token_account {
        Err(Refusal::Gar(GarError::MissingPayerTokenAccountForFundingSource))
    } else {
        Ok(DrawState { balance: st.balance + amount, ..st })
    }
}

/// The gateway at one of the remaining accounts, once it has been checked.
pub open spec fn drawable_gateway(env: PlanEnv, st: DrawState, at: int) -> Result<Gateway, Refusal> {
    match st.accounts[at].data {
        AccountData::Gateway(gateway) => match gateway_pda(gateway.operator, env.program_id) {
            None => Err(Refusal::NoProgramAddress),
            Some((expected, bump)) => match source_gateway_refusal(
                st.accounts[at].key,
                expected,
                gateway,
                st.seen,
            ) {
                Some(e) => Err(Refusal::Gar(e)),
                None => Ok(gateway),
            },
        },
        _ => Err(Refusal::WrongAccountType),
    }
}

/// The payer's delegation at one of the remaining accounts, once it has been
/// checked.
pub open spec fn drawable_delegation(env: PlanEnv, st: DrawState, at: int, operator: Pubkey) -> Result<
    Delegation,
    Refusal,
> {
    match st.accounts[at].data {
        AccountData::Delegation(delegation) => match delegation_pda(operator, env.payer, env.program_id) {
            None => Err(Refusal::NoProgramAddress),
            Some((expected, bump)) => if st.accounts[at].key != expected {
                Err(Refusal::Gar(GarError::InvalidParameter))
            } else if delegation.delegator != env.payer {
                Err(Refusal::Gar(GarError::NotDelegator))
            } else {
                Ok(delegation)
            },
        },
        _ => Err(Refusal::WrongAccountType),
    }
}

pub open spec fn with_data(accounts: Seq<FundingAccount>, at: int, data: AccountData) -> Seq<FundingAccount> {
    accounts.update(at, FundingAccount { data, ..accounts[at] })
}

/// The draws after one more part from a delegation.
pub open spec fn after_delegation(env: PlanEnv, st: DrawState, amount: u64) -> Result<DrawState, Refusal> {
    if st.next + 2 > env.remaining@.len() {
        Err(Refusal::Gar(GarError::MissingFundingSourceAccount))
    } else {
        let gi = env.remaining@[st.next] as int;
        let di = env.remaining@[st.next + 1] as int;
        match drawable_gateway(env, st, gi) {
            Err(e) => Err(e),
            Ok(gateway) => match drawable_delegation(env, st, di, gateway.operator) {
                Err(e) => Err(e),
                Ok(delegation) => match delegation_draw_refusal(gateway, delegation, amount) {
                    Some(e) => Err(Refusal::Gar(e)),
                    None => {
                        let (g, d, residue) = delegation_drawn(gateway, delegation, amount);
                        Ok(
                            DrawState {
                                accounts: with_data(
                                    with_data(st.accounts, gi, AccountData::Gateway(g)),
                                    di,
                                    AccountData::Delegation(d),
                                ),
                                next: st.next + 2,
                                pool: st.pool + amount,
                                delegated: st.delegated + amount,
                                residues: if residue > 0 {
                                    st.residues.push((gateway.operator, residue as u64))
                                } else {
                                    st.residues
                                },
                                seen: st.seen.push(gateway.operator),
                                events: st.events.push(stake_payment(env, gateway.operator, amount, true)),
                                ..st
                            },
                        )
                    },
                },
            },
        }
    }
}

/// The draws after one more part from operator stake.
pub open spec fn after_operator_stake(env: PlanEnv, st: DrawState, amount: u64) -> Result<DrawState, Refusal> {
    if st.next + 1 > env.remaining@.len() {
        Err(Refusal::Gar(GarError::MissingFundingSourceAccount))
    } else {
        let gi = env.remaining@[st.next] as int;
        match drawable_gateway(env, st, gi) {
            Err(e) => Err(e),
            Ok(gateway) => match operator_draw_refusal(gateway, env.payer, env.min_operator_stake, amount) {
                Some(e) => Err(Refusal::Gar(e)),
                None => Ok(
                    DrawState {
                        accounts: with_data(
                            st.accounts,
                            gi,
                            AccountData::Gateway(
                                Gateway { operator_stake: (gateway.operator_stake - amount) as u64, ..gateway },
                            ),
                        ),
                        next: st.next + 1,
                        pool: st.pool + amount,
                        staked: st.staked + amount,
                        seen: st.seen.push(gateway.operator),
                        events: st.events.push(stake_payment(env, gateway.operator, amount, false)),
                        ..st
                    },
                ),
            },
        }
    }
}

/// The draws after one more part from a withdrawal vault.
pub open spec fn after_withdrawal(env: PlanEnv, st: DrawState, amount: u64) -> Result<DrawState, Refusal> {
    if st.next + 1 > env.remaining@.len() {
        Err(Refusal::Gar(GarError::MissingFundingSourceAccount))
    } else {
        let wi = env.remaining@[st.next] as int;
        let account = st.accounts[wi];
        if !account.owned {
            Err(Refusal::Gar(GarError::InvalidParameter))
        } else {
            match account.data {
                AccountData::Withdrawal(withdrawal) => if withdrawal.owner != env.payer {
                    Err(Refusal::Gar(GarError::InvalidOwner))
                } else {
                    match withdrawal_pda(withdrawal.owner, withdrawal.withdrawal_id, env.program_id) {
                        None => Err(Refusal::NoProgramAddress),
                        Some((expected, bump)) => match withdrawal_draw_refusal(
                            account.key,
                            expected,
                            withdrawal,
                            amount,
                        ) {
                            Some(e) => Err(Refusal::Gar(e)),
                            None => Ok(
                                DrawState {
                                    accounts: with_data(
                                        st.accounts,
                                        wi,
                                        AccountData::Withdrawal(
                                            Withdrawal {
                                                amount: (withdrawal.amount - amount) as u64,
                                                ..withdrawal
                                            },
                                        ),
                                    ),
                                    next: st.next + 1,
                                    pool: st.pool + amount,
                                    withdrawn: st.withdrawn + amount,
                                    events: st.events.push(
                                        FundingEvent::Withdrawal(
                                            WithdrawalPaymentEvent {
                                                owner: env.payer,
                                                withdrawal_id: withdrawal.withdrawal_id,
                                                amount,
                                                residue: (withdrawal.amount - amount) as u64,
                                                timestamp: env.now,
                                            },
                                        ),
                                    ),
                                    ..st
                                },
                            ),
                        },
                    }
                },
                _ => Err(Refusal::WrongAccountType),
            }
        }
    }
}

/// The draws after one more source.
pub open spec fn after_source(env: PlanEnv, st: DrawState, source: FundingSourceSpec) -> Result<DrawState, Refusal> {
    match source.kind {
        FundingSourceKind::Balance => after_balance(env, st, source.amount),
        FundingSourceKind::Delegation => after_delegation(env, st, source.amount),
        FundingSourceKind::OperatorStake => after_operator_stake(env, st, source.amount),
        FundingSourceKind::Withdrawal => after_withdrawal(env, st, source.amount),
    }
}

/// The draws after the sources from `i` on; the first refusal ends them.
pub open spec fn after_sources(env: PlanEnv, st: DrawState, sources: Seq<FundingSourceSpec>, i: int) -> Result<
    DrawState,
    Refusal,
>
    decreases sources.len() - i,
{
    if i >= sources.len() {
        Ok(st)
    } else {
        match after_source(env, st, sources[i]) {
            Err(e) => Err(e),
            Ok(next) => after_sources(env, next, sources, i + 1),
        }
    }
}

fn draw_from_balance(env: &PlanEnv, draws: Draws, amount: u64) -> (r: Result<Draws, Refusal>)
    requires
        draws.balance + amount <= u64::MAX,
    ensures
        answers(r, after_balance(*env, draws@, amount)),
{
    let mut draws = draws;
    if !env.has_payer_token_account {
        return Err(Refusal::Gar(GarError::MissingPayerTokenAccountForFundingSource));
    }
    draws.balance = draws.balance + amount;
    Ok(draws)
}

/// An exec result is the one that the model gives.
pub open spec fn answers(r: Result<Draws, Refusal>, s: Result<DrawState, Refusal>) -> bool {
    match r {
        Ok(draws) => s == Ok::<DrawState, Refusal>(draws@),
        Err(e) => s == Err::<DrawState, Refusal>(e),
    }
}

/// Checks the gateway at one of the remaining accounts and returns its operator.
fn check_drawable_gateway(env: &PlanEnv, draws: &Draws, at: usize) -> (r: Result<Pubkey, Refusal>)
    requires
        at < draws.accounts@.len(),
    ensures
        match r {
            Ok(operator) => drawable_gateway(*env, draws@, at as int) matches Ok(g) && g.operator == operator
                && draws.accounts@[at as int].data == AccountData::Gateway(g),
            Err(e) => drawable_gateway(*env, draws@, at as int) == Err::<Gateway, Refusal>(e),
        },
{
    match &draws.accounts[at].data {
        AccountData::Gateway(gateway) => match gateway_address(&gateway.operator, &env.program_id) {
            None => Err(Refusal::NoProgramAddress),
            Some((expected, _bump)) => match check_source_gateway(
                &draws.accounts[at].key,
                &expected,
                gateway,
                &draws.seen,
            ) {
                Err(e) => Err(Refusal::Gar(e)),
                Ok(()) => Ok(gateway.operator),
            },
        },
        _ => Err(Refusal::WrongAccountType),
    }
}

/// Checks the delegation at one of the remaining accounts and returns it.
fn check_drawable_delegation(env: &PlanEnv, draws: &Draws, at: usize, operator: &Pubkey) -> (r: Result<
    Delegation,
    Refusal,
>)
    requires
        at < draws.accounts@.len(),
    ensures
        r == drawable_delegation(*env, draws@, at as int, *operator),
{
    match &draws.accounts[at].data {
        AccountData::Delegation(delegation) => match delegation_address(
            operator,
            &env.payer,
            &env.program_id,
        ) {
            None => Err(Refusal::NoProgramAddress),
            Some((expected, _bump)) => if draws.accounts[at].key != expected {
                Err(Refusal::Gar(GarError::InvalidParameter))
            } else if delegation.delegator != env.payer {
                Err(Refusal::Gar(GarError::NotDelegator))
            } else {
                Ok(*delegation)
            },
        },
        _ => Err(Refusal::WrongAccountType),
    }
}

fn draw_from_delegation(env: &PlanEnv, draws: Draws, amount: u64) -> (r: Result<Draws, Refusal>)
    requires
        places_valid(env.remaining@, draws.accounts@),
        draws.next <= env.remaining@.len(),
        draws.pool + amount <= u64::MAX,
        draws.delegated + amount <= u64::MAX,
    ensures
        answers(r, after_delegation(*env, draws@, amount)),
{
    let mut draws = draws;
    if env.remaining.len() - draws.next < 2 {
        return Err(Refusal::Gar(GarError::MissingFundingSourceAccount));
    }
    let gi: usize = env.remaining[draws.next];
    let di: usize = env.remaining[draws.next + 1];
    let operator = match check_drawable_gateway(env, &draws, gi) {
        Err(e) => {
            return Err(e);
        },
        Ok(operator) => operator,
    };
    let mut delegation = match check_drawable_delegation(env, &draws, di, &operator) {
        Err(e) => {
            return Err(e);
        },
        Ok(delegation) => delegation,
    };
    let residue: u64 = match &mut draws.accounts[gi].data {
        AccountData::Gateway(gateway) => match draw_delegation(gateway, &mut delegation, amount) {
            Err(e) => {
                return Err(Refusal::Gar(e));
            },
            Ok(residue) => residue,
        },
        _ => {
            return Err(Refusal::WrongAccountType);
        },
    };
    draws.accounts[di].data = AccountData::Delegation(delegation);
    draws.next = draws.next + 2;
    draws.pool = draws.pool + amount;
    draws.delegated = draws.delegated + amount;
    if residue > 0 {
        draws.residues.push((operator, residue));
    }
    draws.seen.push(operator);
    draws.events.push(
        FundingEvent::Stake(
            StakePaymentEvent {
                payer: env.payer,
                gateway: operator,
                amount,
                is_delegate: true,
                timestamp: env.now,
            },
        ),
    );
    Ok(draws)
}

fn draw_from_operator_stake(env: &PlanEnv, draws: Draws, amount: u64) -> (r: Result<Draws, Refusal>)
    requires
        places_valid(env.remaining@, draws.accounts@),
        draws.next <= env.remaining@.len(),
        draws.pool + amount <= u64::MAX,
        draws.staked + amount <= u64::MAX,
    ensures
        answers(r, after_operator_stake(*env, draws@, amount)),
{
    let mut draws = draws;
    if draws.next == env.remaining.len() {
        return Err(Refusal::Gar(GarError::MissingFundingSourceAccount));
    }
    let gi: usize = env.remaining[draws.next];
    let operator = match check_drawable_gateway(env, &draws, gi) {
        Err(e) => {
            return Err(e);
        },
        Ok(operator) => operator,
    };
    match &mut draws.accounts[gi].data {
        AccountData::Gateway(gateway) => match draw_operator_stake(
            gateway,
            &env.payer,
            env.min_operator_stake,
            amount,
        ) {
            Err(e) => {
                return Err(Refusal::Gar(e));
            },
            Ok(()) => {},
        },
        _ => {
            return Err(Refusal::WrongAccountType);
        },
    }
    draws.next = draws.next + 1;
    draws.pool = draws.pool + amount;
    draws.staked = draws.staked + amount;
    draws.seen.push(operator);
    draws.events.push(
        FundingEvent::Stake(
            StakePaymentEvent {
                payer: env.payer,
                gateway: operator,
                amount,
                is_delegate: false,
                timestamp: env.now,
            },
        ),
    );
    Ok(draws)
}

fn draw_from_withdrawal(env: &PlanEnv, draws: Draws, amount: u64) -> (r: Result<Draws, Refusal>)
    requires
        places_valid(env.remaining@, draws.accounts@),
        draws.next <= env.remaining@.len(),
        draws.pool + amount <= u64::MAX,
        draws.withdrawn + amount <= u64::MAX,
    ensures
        answers(r, after_withdrawal(*env, draws@, amount)),
{
    let mut draws = draws;
    if draws.next == env.remaining.len() {
        return Err(Refusal::Gar(GarError::MissingFundingSourceAccount));
    }
    let wi: usize = env.remaining[draws.next];
    if !draws.accounts[wi].owned {
        return Err(Refusal::Gar(GarError::InvalidParameter));
    }
    let mut withdrawal = match &draws.accounts[wi].data {
        AccountData::Withdrawal(withdrawal) => *withdrawal,
        _ => {
            return Err(Refusal::WrongAccountType);
        },
    };
    if withdrawal.owner != env.payer {
        return Err(Refusal::Gar(GarError::InvalidOwner));
    }
    let expected = match withdrawal_address(&withdrawal.owner, withdrawal.withdrawal_id, &env.program_id) {
        None => {
            return Err(Refusal::NoProgramAddress);
        },
        Some((expected, _bump)) => expected,
    };
    match draw_withdrawal(&draws.accounts[wi].key, &expected, &mut withdrawal, amount) {
        Err(e) => {
            return Err(Refusal::Gar(e));
        },
        Ok(()) => {},
    }
    draws.accounts[wi].data = AccountData::Withdrawal(withdrawal);
    draws.next = draws.next + 1;
    draws.pool = draws.pool + amount;
    draws.withdrawn = draws.withdrawn + amount;
    draws.events.push(
        FundingEvent::Withdrawal(
            WithdrawalPaymentEvent {
                owner: env.payer,
                withdrawal_id: withdrawal.withdrawal_id,
                amount,
                residue: withdrawal.amount,
                timestamp: env.now,
            },
        ),
    );
    Ok(draws)
}

/// The draws keep their books: what was drawn adds up to the first `i` amounts,
/// and there is no more than one residue per source.
pub open spec fn booked(st: DrawState, sources: Seq<FundingSourceSpec>, i: int) -> bool {
    &&& st.balance >= 0
    &&& st.pool == st.delegated + st.staked + st.withdrawn
    &&& st.delegated >= 0
    &&& st.staked >= 0
    &&& st.withdrawn >= 0
    &&& st.balance + st.pool == total_of(sources, i)
    &&& st.residues.len() <= i
}

/// One more source keeps the books, and takes no account away.
proof fn lemma_source_booked(env: PlanEnv, st: DrawState, sources: Seq<FundingSourceSpec>, i: int)
    requires
        0 <= i < sources.len(),
        booked(st, sources, i),
        0 <= st.next <= env.remaining@.len(),
        places_valid(env.remaining@, st.accounts),
        after_source(env, st, sources[i]) is Ok,
    ensures
        ({
            let next = after_source(env, st, sources[i])->Ok_0;
            &&& booked(next, sources, i + 1)
            &&& next.accounts.len() == st.accounts.len()
            &&& st.next <= next.next <= env.remaining@.len()
        }),
{
}

/// Draws on the sources of a plan one after the other.
fn draw_sources(env: &PlanEnv, draws: Draws, sources: &Vec<FundingSourceSpec>) -> (r: Result<Draws, Refusal>)
    requires
        places_valid(env.remaining@, draws.accounts@),
        draws.next <= env.remaining@.len(),
        booked(draws@, sources@, 0),
        total_of(sources@, sources@.len() as int) <= u64::MAX,
    ensures
        answers(r, after_sources(*env, draws@, sources@, 0)),
        r matches Ok(d) ==> booked(d@, sources@, sources@.len() as int) && d.accounts@.len()
            == draws.accounts@.len() && d.next <= env.remaining@.len(),
{
    let mut current = draws;
    let mut i: usize = 0;
    while i < sources.len()
        invariant
            i <= sources@.len(),
            places_valid(env.remaining@, current.accounts@),
            current.next <= env.remaining@.len(),
            current.accounts@.len() == draws.accounts@.len(),
            booked(current@, sources@, i as int),
            total_of(sources@, sources@.len() as int) <= u64::MAX,
            after_sources(*env, current@, sources@, i as int) == after_sources(*env, draws@, sources@, 0),
        decreases sources@.len() - i,
    {
        let ghost before = current@;
        let source = sources[i];
        proof {
            lemma_total_grows(sources@, i + 1, sources@.len() as int);
        }
        let r = match source.kind {
            FundingSourceKind::Balance => draw_from_balance(env, current, source.amount),
            FundingSourceKind::Delegation => draw_from_delegation(env, current, source.amount),
            FundingSourceKind::OperatorStake => draw_from_operator_stake(env, current, source.amount),
            FundingSourceKind::Withdrawal => draw_from_withdrawal(env, current, source.amount),
        };
        match r {
            Err(e) => {
                return Err(e);
            },
            Ok(next) => {
                proof {
                    lemma_source_booked(*env, before, sources@, i as int);
                }
                current = next;
            },
        }
        i = i + 1;
    }
    Ok(current)
}

/// Why no vault can be opened for a residue, if so. `expected` is the address of
/// the payer's next withdrawal.
pub open spec fn residue_vault_refusal(
    account: FundingAccount,
    expected: Pubkey,
    now: i64,
    withdrawal_period: i64,
) -> Option<GarError> {
    if account.key != expected {
        Some(GarError::InvalidParameter)
    } else if account.data != AccountData::Empty {
        Some(GarError::InvalidParameter)
    } else if now + withdrawal_period > i64::MAX || now + withdrawal_period < i64::MIN {
        Some(GarError::ArithmeticOverflow)
    } else {
        None
    }
}

/// Opens a vault for the residue of a delegation: an ordinary delegate
/// withdrawal, locked for the withdrawal period.
pub fn open_residue_vault(
    account: &FundingAccount,
    expected: &Pubkey,
    bump: u8,
    owner: &Pubkey,
    withdrawal_id: u64,
    gateway: &Pubkey,
    amount: u64,
    now: i64,
    withdrawal_period: i64,
) -> (r: Result<Withdrawal, GarError>)
    ensures
        match r {
            Err(e) => residue_vault_refusal(*account, *expected, now, withdrawal_period) == Some(e),
            Ok(vault) => {
                &&& residue_vault_refusal(*account, *expected, now, withdrawal_period) is None
                &&& vault == residue_vault(
                    *owner,
                    withdrawal_id,
                    *gateway,
                    amount,
                    now,
                    withdrawal_period,
                    bump,
                )
            },
        },
{
    if account.key != *expected {
        return Err(GarError::InvalidParameter);
    }
    match &account.data {
        AccountData::Empty => {},
        _ => {
            return Err(GarError::InvalidParameter);
        },
    }
    match now.checked_add(withdrawal_period) {
        None => Err(GarError::ArithmeticOverflow),
        Some(available_at) => Ok(
            Withdrawal {
                owner: *owner,
                withdrawal_id,
                gateway: *gateway,
                amount,
                created_at: now,
                available_at,
                is_delegate: true,
                is_exit_vault: false,
                is_protected: false,
                bump,
                version: withdrawal_version(),
            },
        ),
    }
}

/// The vault for the residue of a delegation.
pub open spec fn residue_vault(
    owner: Pubkey,
    withdrawal_id: u64,
    gateway: Pubkey,
    amount: u64,
    now: i64,
    withdrawal_period: i64,
    bump: u8,
) -> Withdrawal {
    Withdrawal {
        owner,
        withdrawal_id,
        gateway,
        amount,
        created_at: now,
        available_at: (now + withdrawal_period) as i64,
        is_delegate: true,
        is_exit_vault: false,
        is_protected: false,
        bump,
        version: withdrawal_version(),
    }
}

/// How far the vaults for the residues have been opened.
pub struct VaultState {
    pub accounts: Seq<FundingAccount>,
    pub next: int,
    pub counter: WithdrawalCounter,
    pub events: Seq<FundingEvent>,
}

/// The state after one more vault.
pub open spec fn after_residue(
    env: PlanEnv,
    withdrawal_period: i64,
    st: VaultState,
    residue: (Pubkey, u64),
) -> Result<VaultState, Refusal> {
    if st.next >= env.remaining@.len() {
        Err(Refusal::Gar(GarError::MissingResidueVault))
    } else if st.counter.next_id == u64::MAX {
        Err(Refusal::Gar(GarError::ArithmeticOverflow))
    } else {
        let vi = env.remaining@[st.next] as int;
        let id = st.counter.next_id;
        match withdrawal_pda(env.payer, id, env.program_id) {
            None => Err(Refusal::NoProgramAddress),
            Some((expected, bump)) => match residue_vault_refusal(
                st.accounts[vi],
                expected,
                env.now,
                withdrawal_period,
            ) {
                Some(e) => Err(Refusal::Gar(e)),
                None => {
                    let vault = residue_vault(
                        env.payer,
                        id,
                        residue.0,
                        residue.1,
                        env.now,
                        withdrawal_period,
                        bump,
                    );
                    Ok(
                        VaultState {
                            accounts: st.accounts.update(
                                vi,
                                FundingAccount {
                                    key: st.accounts[vi].key,
                                    owned: true,
                                    data: AccountData::Withdrawal(vault),
                                },
                            ),
                            next: st.next + 1,
                            counter: WithdrawalCounter { next_id: (id + 1) as u64, ..st.counter },
                            events: st.events.push(
                                FundingEvent::Residue(
                                    ResidueVaultCreatedEvent {
                                        owner: env.payer,
                                        withdrawal_id: id,
                                        gateway: residue.0,
                                        amount: residue.1,
                                        available_at: vault.available_at,
                                        timestamp: env.now,
                                    },
                                ),
                            ),
                        },
                    )
                },
            },
        }
    }
}

/// The state after the vaults for the residues from `i` on; the first refusal
/// ends them.
pub open spec fn after_residues(
    env: PlanEnv,
    withdrawal_period: i64,
    st: VaultState,
    residues: Seq<(Pubkey, u64)>,
    i: int,
) -> Result<VaultState, Refusal>
    decreases residues.len() - i,
{
    if i >= residues.len() {
        Ok(st)
    } else {
        match after_residue(env, withdrawal_period, st, residues[i]) {
            Err(e) => Err(e),
            Ok(next) => after_residues(env, withdrawal_period, next, residues, i + 1),
        }
    }
}

/// The sum of the first `n` residues.
pub open spec fn residue_total(residues: Seq<(Pubkey, u64)>, n: int) -> int
    decreases n,
{
    if n <= 0 {
        0
    } else {
        residue_total(residues, n - 1) + residues[n - 1].1
    }
}

/// A withdrawal counter in use: a counter that was just opened takes its owner,
/// bump seed and version.
pub open spec fn counter_in_use(counter: WithdrawalCounter, owner: Pubkey, bump: u8) -> WithdrawalCounter {
    if counter.bump == 0 {
        WithdrawalCounter { owner, bump, version: withdrawal_counter_version(), ..counter }
    } else {
        counter
    }
}

/// What a funding plan leaves behind.
pub struct FundingOutcome {
    pub settings: GatewaySettings,
    pub counter: WithdrawalCounter,
    pub accounts: Seq<FundingAccount>,
    pub transfers: Seq<TokenTransfer>,
    pub events: Seq<FundingEvent>,
}

/// What the sources of a plan are drawn against.
pub open spec fn plan_env(ctx: PayFromFundingPlan, now: i64) -> PlanEnv {
    PlanEnv {
        payer: ctx.payer,
        program_id: ctx.program_id,
        min_operator_stake: ctx.settings.min_operator_stake,
        has_payer_token_account: ctx.has_payer_token_account,
        remaining: ctx.remaining,
        now,
    }
}

/// The draws before the first source.
pub open spec fn no_draws(accounts: Seq<FundingAccount>) -> DrawState {
    DrawState {
        accounts,
        next: 0,
        balance: 0,
        pool: 0,
        delegated: 0,
        staked: 0,
        withdrawn: 0,
        residues: Seq::empty(),
        seen: Seq::empty(),
        events: Seq::empty(),
    }
}

/// The settings after a plan: its draws leave the supply counters, and its
/// residues move from the counter of delegated tokens to that of withdrawn ones.
pub open spec fn settings_after_plan(settings: GatewaySettings, st: DrawState) -> Result<GatewaySettings, Refusal> {
    let residue = residue_total(st.residues, st.residues.len() as int);
    let withdrawn = minus_or_zero(settings.total_withdrawn as int, st.withdrawn) + cap_u64(residue);
    if withdrawn > u64::MAX {
        Err(Refusal::Gar(GarError::ArithmeticOverflow))
    } else {
        Ok(
            GatewaySettings {
                total_delegated: minus_or_zero(settings.total_delegated as int, st.delegated + residue) as u64,
                total_staked: minus_or_zero(settings.total_staked as int, st.staked) as u64,
                total_withdrawn: withdrawn as u64,
                ..settings
            },
        )
    }
}

/// What remains of a plan once its sources are drawn on.
pub open spec fn plan_settled(
    ctx: PayFromFundingPlan,
    st: DrawState,
    source_count: nat,
    expected_total: u64,
    residue_vault_count: u8,
    now: i64,
) -> Result<FundingOutcome, Refusal> {
    if st.residues.len() != residue_vault_count {
        Err(Refusal::Gar(GarError::MismatchedResidueVaultCount))
    } else {
        let vaults = VaultState {
            accounts: st.accounts,
            next: st.next,
            counter: counter_in_use(ctx.withdrawal_counter, ctx.payer, ctx.withdrawal_counter_bump),
            events: st.events,
        };
        match after_residues(plan_env(ctx, now), ctx.settings.withdrawal_period, vaults, st.residues, 0) {
            Err(e) => Err(e),
            Ok(done) => if done.next < ctx.remaining@.len() {
                Err(Refusal::Gar(GarError::ExtraneousFundingSourceAccount))
            } else {
                match settings_after_plan(ctx.settings, st) {
                    Err(e) => Err(e),
                    Ok(settings) => Ok(
                        FundingOutcome {
                            settings,
                            counter: done.counter,
                            accounts: done.accounts,
                            transfers: transfer_if_any(Holder::StakePool, Holder::Treasury, st.pool)
                                + transfer_if_any(Holder::Wallet, Holder::Treasury, st.balance),
                            events: done.events.push(
                                FundingEvent::Applied(
                                    FundingPlanAppliedEvent {
                                        payer: ctx.payer,
                                        total_funded: expected_total,
                                        source_count: source_count as u8,
                                        created_residue_vault: st.residues.len() > 0,
                                        timestamp: now,
                                    },
                                ),
                            ),
                        },
                    ),
                }
            },
        }
    }
}

/// What a funding plan comes to.
pub open spec fn funding_plan(
    ctx: PayFromFundingPlan,
    sources: Seq<FundingSourceSpec>,
    expected_total: u64,
    residue_vault_count: u8,
    now: i64,
) -> Result<FundingOutcome, Refusal> {
    if ctx.stake_token_account != ctx.settings.stake_token_account {
        Err(Refusal::Gar(GarError::InvalidParameter))
    } else if ctx.protocol_token_account != ctx.settings.protocol_token_account {
        Err(Refusal::Gar(GarError::InvalidParameter))
    } else {
        match plan_refusal(sources, expected_total) {
            Some(e) => Err(Refusal::Gar(e)),
            None => match after_sources(plan_env(ctx, now), no_draws(ctx.accounts@), sources, 0) {
                Err(e) => Err(e),
                Ok(st) => plan_settled(ctx, st, sources.len(), expected_total, residue_vault_count, now),
            },
        }
    }
}

/// How far the vaults for the residues have been opened.
struct Vaults {
    accounts: Vec<FundingAccount>,
    next: usize,
    counter: WithdrawalCounter,
    events: Vec<FundingEvent>,
}

impl View for Vaults {
    type V = VaultState;

    closed spec fn view(&self) -> VaultState {
        VaultState {
            accounts: self.accounts@,
            next: self.next as int,
            counter: self.counter,
            events: self.events@,
        }
    }
}

fn open_vaults(
    env: &PlanEnv,
    withdrawal_period: i64,
    vaults: Vaults,
    residues: &Vec<(Pubkey, u64)>,
) -> (r: Result<Vaults, Refusal>)
    requires
        places_valid(env.remaining@, vaults.accounts@),
        vaults.next <= env.remaining@.len(),
    ensures
        match r {
            Ok(done) => {
                &&& after_residues(*env, withdrawal_period, vaults@, residues@, 0) == Ok::<
                    VaultState,
                    Refusal,
                >(done@)
                &&& done.next <= env.remaining@.len()
            },
            Err(e) => after_residues(*env, withdrawal_period, vaults@, residues@, 0) == Err::<
                VaultState,
                Refusal,
            >(e),
        },
{
    let mut current = vaults;
    let mut i: usize = 0;
    while i < residues.len()
        invariant
            i <= residues@.len(),
            places_valid(env.remaining@, current.accounts@),
            current.next <= env.remaining@.len(),
            after_residues(*env, withdrawal_period, current@, residues@, i as int) == after_residues(
                *env,
                withdrawal_period,
                vaults@,
                residues@,
                0,
            ),
        decreases residues@.len() - i,
    {
        if current.next == env.remaining.len() {
            return Err(Refusal::Gar(GarError::MissingResidueVault));
        }
        let vi: usize = env.remaining[current.next];
        let id: u64 = current.counter.next_id;
        if id == u64::MAX {
            return Err(Refusal::Gar(GarError::ArithmeticOverflow));
        }
        let (expected, bump) = match withdrawal_address(&env.payer, id, &env.program_id) {
            None => {
                return Err(Refusal::NoProgramAddress);
            },
            Some((expected, bump)) => (expected, bump),
        };
        let (gateway, amount) = (residues[i].0, residues[i].1);
        let vault = match open_residue_vault(
            &current.accounts[vi],
            &expected,
            bump,
            &env.payer,
            id,
            &gateway,
            amount,
            env.now,
            withdrawal_period,
        ) {
            Err(e) => {
                return Err(Refusal::Gar(e));
            },
            Ok(vault) => vault,
        };
        let key = current.accounts[vi].key;
        current.accounts.set(
            vi,
            FundingAccount { key, owned: true, data: AccountData::Withdrawal(vault) },
        );
        current.next = current.next + 1;
        current.counter.next_id = id + 1;
        current.events.push(
            FundingEvent::Residue(
                ResidueVaultCreatedEvent {
                    owner: env.payer,
                    withdrawal_id: id,
                    gateway,
                    amount,
                    available_at: vault.available_at,
                    timestamp: env.now,
                },
            ),
        );
        i = i + 1;
    }
    Ok(current)
}

/// The sum of the residues, capped at the largest amount.
fn sum_residues(residues: &Vec<(Pubkey, u64)>) -> (r: u64)
    ensures
        r == cap_u64(residue_total(residues@, residues@.len() as int)),
        residue_total(residues@, residues@.len() as int) >= 0,
{
    let mut sum: u64 = 0;
    let mut i: usize = 0;
    while i < residues.len()
        invariant
            i <= residues@.len(),
            sum == cap_u64(residue_total(residues@, i as int)),
            residue_total(residues@, i as int) >= 0,
        decreases residues@.len() - i,
    {
        sum = sum.saturating_add(residues[i].1);
        i = i + 1;
    }
    sum
}

/// Pays `expected_total` to the treasury out of several sources. The sources are
/// drawn on in the order given; a delegation that falls below its gateway's
/// minimum is emptied into a vault of its own. At most two transfers are made,
/// one from the stake pool and one from the payer's token account.
pub fn pay_from_funding_plan(
    ctx: PayFromFundingPlan,
    sources: Vec<FundingSourceSpec>,
    expected_total: u64,
    residue_vault_count: u8,
    now: i64,
) -> (r: Result<Outcome<PayFromFundingPlan, Vec<FundingEvent>>, Refusal>)
    requires
        places_valid(ctx.remaining@, ctx.accounts@),
    ensures
        match r {
            Err(e) => funding_plan(ctx, sources@, expected_total, residue_vault_count, now) == Err::<
                FundingOutcome,
                Refusal,
            >(e),
            Ok(o) => {
                &&& funding_plan(ctx, sources@, expected_total, residue_vault_count, now) == Ok::<
                    FundingOutcome,
                    Refusal,
                >(
                    FundingOutcome {
                        settings: o.accounts.settings,
                        counter: o.accounts.withdrawal_counter,
                        accounts: o.accounts.accounts@,
                        transfers: o.transfers@,
                        events: o.event@,
                    },
                )
                &&& o.accounts == (PayFromFundingPlan {
                    settings: o.accounts.settings,
                    withdrawal_counter: o.accounts.withdrawal_counter,
                    accounts: o.accounts.accounts,
                    ..ctx
                })
            },
        },
{
    if ctx.stake_token_account != ctx.settings.stake_token_account {
        return Err(Refusal::Gar(GarError::InvalidParameter));
    }
    if ctx.protocol_token_account != ctx.settings.protocol_token_account {
        return Err(Refusal::Gar(GarError::InvalidParameter));
    }
    match check_plan(&sources, expected_total) {
        Err(e) => {
            return Err(Refusal::Gar(e));
        },
        Ok(()) => {},
    }
    let env = PlanEnv {
        payer: ctx.payer,
        program_id: ctx.program_id,
        min_operator_stake: ctx.settings.min_operator_stake,
        has_payer_token_account: ctx.has_payer_token_account,
        remaining: ctx.remaining,
        now,
    };
    let start = Draws {
        accounts: ctx.accounts,
        next: 0,
        balance: 0,
        pool: 0,
        delegated: 0,
        staked: 0,
        withdrawn: 0,
        residues: Vec::new(),
        seen: Vec::new(),
        events: Vec::new(),
    };
    assert(start@ == no_draws(ctx.accounts@));
    let draws = match draw_sources(&env, start, &sources) {
        Err(e) => {
            return Err(e);
        },
        Ok(draws) => draws,
    };
    if draws.residues.len() != residue_vault_count as usize {
        return Err(Refusal::Gar(GarError::MismatchedResidueVaultCount));
    }
    let mut counter = ctx.withdrawal_counter;
    if counter.bump == 0 {
        counter.owner = ctx.payer;
        counter.bump = ctx.withdrawal_counter_bump;
        counter.version = withdrawal_counter_version();
    }
    let opening = Vaults { accounts: draws.accounts, next: draws.next, counter, events: draws.events };
    let vaults = match open_vaults(&env, ctx.settings.withdrawal_period, opening, &draws.residues) {
        Err(e) => {
            return Err(e);
        },
        Ok(vaults) => vaults,
    };
    if vaults.next < env.remaining.len() {
        return Err(Refusal::Gar(GarError::ExtraneousFundingSourceAccount));
    }
    let residue: u64 = sum_residues(&draws.residues);
    let mut settings = ctx.settings;
    settings.total_delegated = settings.total_delegated.saturating_sub(draws.delegated).saturating_sub(residue);
    settings.total_staked = settings.total_staked.saturating_sub(draws.staked);
    settings.total_withdrawn = match settings.total_withdrawn.saturating_sub(draws.withdrawn).checked_add(
        residue,
    ) {
        None => {
            return Err(Refusal::Gar(GarError::ArithmeticOverflow));
        },
        Some(total) => total,
    };
    let mut transfers: Vec<TokenTransfer> = Vec::new();
    if draws.pool > 0 {
        transfers.push(
            TokenTransfer { from: Holder::StakePool, to: Holder::Treasury, amount: draws.pool },
        );
    }
    if draws.balance > 0 {
        transfers.push(
            TokenTransfer { from: Holder::Wallet, to: Holder::Treasury, amount: draws.balance },
        );
    }
    let mut events = vaults.events;
    events.push(
        FundingEvent::Applied(
            FundingPlanAppliedEvent {
                payer: ctx.payer,
                total_funded: expected_total,
                source_count: sources.len() as u8,
                created_residue_vault: draws.residues.len() > 0,
                timestamp: now,
            },
        ),
    );
    assert(transfers@ =~= transfer_if_any(Holder::StakePool, Holder::Treasury, draws.pool as int)
        + transfer_if_any(Holder::Wallet, Holder::Treasury, draws.balance as int));
    Ok(
        Outcome {
            accounts: PayFromFundingPlan {
                settings,
                withdrawal_counter: vaults.counter,
                accounts: vaults.accounts,
                remaining: env.remaining,
                stake_token_account: ctx.stake_token_account,
                protocol_token_account: ctx.protocol_token_account,
                has_payer_token_account: ctx.has_payer_token_account,
                payer: ctx.payer,
                withdrawal_counter_bump: ctx.withdrawal_counter_bump,
                program_id: ctx.program_id,
            },
            transfers,
            event: events,
        },
    )
}

/// The sum of the amounts of some transfers.
pub open spec fn transfer_total(transfers: Seq<TokenTransfer>) -> int
    decreases transfers.len(),
{
    if transfers.len() == 0 {
        0
    } else {
        transfer_total(transfers.drop_last()) + transfers.last().amount
    }
}

proof fn lemma_sources_booked(env: PlanEnv, st: DrawState, sources: Seq<FundingSourceSpec>, i: int)
    requires
        0 <= i <= sources.len(),
        booked(st, sources, i),
        0 <= st.next <= env.remaining@.len(),
        places_valid(env.remaining@, st.accounts),
        after_sources(env, st, sources, i) is Ok,
    ensures
        booked(after_sources(env, st, sources, i)->Ok_0, sources, sources.len() as int),
    decreases sources.len() - i,
{
    if i < sources.len() {
        lemma_source_booked(env, st, sources, i);
        lemma_sources_booked(env, after_source(env, st, sources[i])->Ok_0, sources, i + 1);
    }
}

proof fn lemma_amounts_fit(sources: Seq<FundingSourceSpec>, i: int)
    requires
        0 <= i <= sources.len(),
        amounts_refusal(sources, i) is None,
        total_of(sources, i) <= u64::MAX,
    ensures
        total_of(sources, sources.len() as int) <= u64::MAX,
    decreases sources.len() - i,
{
    if i < sources.len() {
        lemma_amounts_fit(sources, i + 1);
    }
}

/// A plan that is carried out pays the treasury exactly what the caller expects:
/// no source can add to it.
pub proof fn plan_pays_what_is_expected(
    ctx: PayFromFundingPlan,
    sources: Seq<FundingSourceSpec>,
    expected_total: u64,
    residue_vault_count: u8,
    now: i64,
)
    requires
        places_valid(ctx.remaining@, ctx.accounts@),
        funding_plan(ctx, sources, expected_total, residue_vault_count, now) is Ok,
    ensures
        ({
            let o = funding_plan(ctx, sources, expected_total, residue_vault_count, now)->Ok_0;
            &&& transfer_total(o.transfers) == expected_total
            &&& o.transfers.len() <= 2
            &&& forall|i: int| 0 <= i < o.transfers.len() ==> (#[trigger] o.transfers[i]).to == Holder::Treasury
        }),
{
    let env = plan_env(ctx, now);
    let start = no_draws(ctx.accounts@);
    let st = after_sources(env, start, sources, 0)->Ok_0;
    lemma_sources_booked(env, start, sources, 0);
    lemma_total_grows(sources, 0, sources.len() as int);
    let pool = transfer_if_any(Holder::StakePool, Holder::Treasury, st.pool);
    let wallet = transfer_if_any(Holder::Wallet, Holder::Treasury, st.balance);
    lemma_amounts_fit(sources, 0);
    reveal_with_fuel(transfer_total, 3);
    if st.pool > 0 {
        assert(pool.drop_last() =~= Seq::<TokenTransfer>::empty());
    }
    if st.balance > 0 {
        assert((pool + wallet).drop_last() =~= pool);
    } else {
        assert(pool + wallet =~= pool);
    }
}

/// What the three supply counters come to together.
pub open spec fn counted_supply(settings: GatewaySettings) -> int {
    settings.total_staked + settings.total_delegated + settings.total_withdrawn
}

/// The supply counters hold at least what a plan takes off them.
pub open spec fn counters_cover(settings: GatewaySettings, st: DrawState) -> bool {
    &&& settings.total_delegated >= st.delegated + residue_total(st.residues, st.residues.len() as int)
    &&& settings.total_staked >= st.staked
    &&& settings.total_withdrawn >= st.withdrawn
}

proof fn lemma_residues_not_negative(residues: Seq<(Pubkey, u64)>, n: int)
    ensures
        residue_total(residues, n) >= 0,
    decreases n,
{
    if n > 0 {
        lemma_residues_not_negative(residues, n - 1);
    }
}

/// The supply counters follow the tokens: together they fall by exactly what the
/// plan pays out of the stake pool. The draws on delegations and their residues
/// leave the delegated tokens, and the residues alone enter the withdrawn ones.
pub proof fn plan_keeps_supply_counted(
    ctx: PayFromFundingPlan,
    sources: Seq<FundingSourceSpec>,
    expected_total: u64,
    residue_vault_count: u8,
    now: i64,
)
    requires
        places_valid(ctx.remaining@, ctx.accounts@),
        funding_plan(ctx, sources, expected_total, residue_vault_count, now) is Ok,
        counters_cover(
            ctx.settings,
            after_sources(plan_env(ctx, now), no_draws(ctx.accounts@), sources, 0)->Ok_0,
        ),
    ensures
        ({
            let st = after_sources(plan_env(ctx, now), no_draws(ctx.accounts@), sources, 0)->Ok_0;
            let residue = residue_total(st.residues, st.residues.len() as int);
            let o = funding_plan(ctx, sources, expected_total, residue_vault_count, now)->Ok_0;
            &&& o.settings.total_delegated == ctx.settings.total_delegated - st.delegated - residue
            &&& o.settings.total_staked == ctx.settings.total_staked - st.staked
            &&& o.settings.total_withdrawn == ctx.settings.total_withdrawn - st.withdrawn + residue
            &&& counted_supply(ctx.settings) - counted_supply(o.settings) == st.pool
            &&& st.pool > 0 ==> o.transfers.first() == transfer(Holder::StakePool, Holder::Treasury, st.pool)
            &&& st.pool + st.balance == expected_total
        }),
{
    let env = plan_env(ctx, now);
    let start = no_draws(ctx.accounts@);
    let st = after_sources(env, start, sources, 0)->Ok_0;
    lemma_sources_booked(env, start, sources, 0);
    lemma_amounts_fit(sources, 0);
    lemma_residues_not_negative(st.residues, st.residues.len() as int);
}

/// An account that holds the protected vault of a gateway that left.
pub open spec fn holds_protected_vault(account: FundingAccount) -> bool {
    account.data matches AccountData::Withdrawal(w) && w.is_protected
}

/// Every protected vault of the one list stands unchanged in the other.
pub open spec fn protected_unchanged(before: Seq<FundingAccount>, after: Seq<FundingAccount>) -> bool {
    &&& after.len() == before.len()
    &&& forall|k: int|
        0 <= k < before.len() && #[trigger] holds_protected_vault(before[k]) ==> after[k] == before[k]
}

proof fn lemma_sources_spare_protected(env: PlanEnv, st: DrawState, sources: Seq<FundingSourceSpec>, i: int)
    requires
        0 <= i <= sources.len(),
        0 <= st.next <= env.remaining@.len(),
        places_valid(env.remaining@, st.accounts),
        after_sources(env, st, sources, i) is Ok,
    ensures
        protected_unchanged(st.accounts, after_sources(env, st, sources, i)->Ok_0.accounts),
        0 <= after_sources(env, st, sources, i)->Ok_0.next <= env.remaining@.len(),
    decreases sources.len() - i,
{
    if i < sources.len() {
        let next = after_source(env, st, sources[i])->Ok_0;
        assert(protected_unchanged(st.accounts, next.accounts));
        lemma_sources_spare_protected(env, next, sources, i + 1);
        let end = after_sources(env, st, sources, i)->Ok_0;
        assert forall|k: int|
            0 <= k < st.accounts.len() && #[trigger] holds_protected_vault(st.accounts[k]) implies end.accounts[k]
            == st.accounts[k] by {
            assert(holds_protected_vault(next.accounts[k]));
        }
    }
}

proof fn lemma_residues_spare_protected(
    env: PlanEnv,
    withdrawal_period: i64,
    st: VaultState,
    residues: Seq<(Pubkey, u64)>,
    i: int,
)
    requires
        0 <= i <= residues.len(),
        0 <= st.next <= env.remaining@.len(),
        places_valid(env.remaining@, st.accounts),
        after_residues(env, withdrawal_period, st, residues, i) is Ok,
    ensures
        protected_unchanged(st.accounts, after_residues(env, withdrawal_period, st, residues, i)->Ok_0.accounts),
    decreases residues.len() - i,
{
    if i < residues.len() {
        let next = after_residue(env, withdrawal_period, st, residues[i])->Ok_0;
        assert(protected_unchanged(st.accounts, next.accounts));
        lemma_residues_spare_protected(env, withdrawal_period, next, residues, i + 1);
        let end = after_residues(env, withdrawal_period, st, residues, i)->Ok_0;
        assert forall|k: int|
            0 <= k < st.accounts.len() && #[trigger] holds_protected_vault(st.accounts[k]) implies end.accounts[k]
            == st.accounts[k] by {
            assert(holds_protected_vault(next.accounts[k]));
        }
    }
}

/// No plan spends the protected vault of a gateway that left.
pub proof fn plan_spares_protected_vaults(
    ctx: PayFromFundingPlan,
    sources: Seq<FundingSourceSpec>,
    expected_total: u64,
    residue_vault_count: u8,
    now: i64,
)
    requires
        places_valid(ctx.remaining@, ctx.accounts@),
        funding_plan(ctx, sources, expected_total, residue_vault_count, now) is Ok,
    ensures
        protected_unchanged(
            ctx.accounts@,
            funding_plan(ctx, sources, expected_total, residue_vault_count, now)->Ok_0.accounts,
        ),
{
    let env = plan_env(ctx, now);
    let start = no_draws(ctx.accounts@);
    let st = after_sources(env, start, sources, 0)->Ok_0;
    lemma_sources_spare_protected(env, start, sources, 0);
    let vaults = VaultState {
        accounts: st.accounts,
        next: st.next,
        counter: counter_in_use(ctx.withdrawal_counter, ctx.payer, ctx.withdrawal_counter_bump),
        events: st.events,
    };
    lemma_residues_spare_protected(env, ctx.settings.withdrawal_period, vaults, st.residues, 0);
    let end = funding_plan(ctx, sources, expected_total, residue_vault_count, now)->Ok_0;
    assert forall|k: int|
        0 <= k < ctx.accounts@.len() && #[trigger] holds_protected_vault(ctx.accounts@[k]) implies end.accounts[k]
        == ctx.accounts@[k] by {
        assert(holds_protected_vault(st.accounts[k]));
    }
}

/// An account holds the vault for a residue, under the number `id`, at the address
/// that the number gives.
pub open spec fn holds_residue(
    account: FundingAccount,
    env: PlanEnv,
    withdrawal_period: i64,
    id: int,
    residue: (Pubkey, u64),
) -> bool {
    withdrawal_pda(env.payer, id as u64, env.program_id) matches Some((key, bump)) && account == (FundingAccount {
        key,
        owned: true,
        data: AccountData::Withdrawal(
            residue_vault(env.payer, id as u64, residue.0, residue.1, env.now, withdrawal_period, bump),
        ),
    })
}

proof fn lemma_residues_numbered(
    env: PlanEnv,
    withdrawal_period: i64,
    st: VaultState,
    residues: Seq<(Pubkey, u64)>,
    i: int,
)
    requires
        0 <= i <= residues.len(),
        0 <= st.next <= env.remaining@.len(),
        places_valid(env.remaining@, st.accounts),
        after_residues(env, withdrawal_period, st, residues, i) is Ok,
    ensures
        ({
            let end = after_residues(env, withdrawal_period, st, residues, i)->Ok_0;
            &&& end.accounts.len() == st.accounts.len()
            &&& end.next == st.next + (residues.len() - i) <= env.remaining@.len()
            &&& end.counter == (WithdrawalCounter { next_id: end.counter.next_id, ..st.counter })
            &&& end.counter.next_id == st.counter.next_id + (residues.len() - i)
            &&& forall|k: int|
                0 <= k < st.accounts.len() && (#[trigger] st.accounts[k]).data != AccountData::Empty
                    ==> end.accounts[k] == st.accounts[k]
            &&& forall|j: int|
                i <= j < residues.len() ==> holds_residue(
                    end.accounts[env.remaining@[st.next + (j - i)] as int],
                    env,
                    withdrawal_period,
                    st.counter.next_id + (j - i),
                    #[trigger] residues[j],
                )
        }),
    decreases residues.len() - i,
{
    if i < residues.len() {
        let next = after_residue(env, withdrawal_period, st, residues[i])->Ok_0;
        let vi = env.remaining@[st.next] as int;
        lemma_residues_numbered(env, withdrawal_period, next, residues, i + 1);
        let end = after_residues(env, withdrawal_period, st, residues, i)->Ok_0;
        assert(next.accounts[vi].data != AccountData::Empty);
        assert(holds_residue(next.accounts[vi], env, withdrawal_period, st.counter.next_id as int, residues[i]));
        assert forall|k: int|
            0 <= k < st.accounts.len() && (#[trigger] st.accounts[k]).data != AccountData::Empty implies end.accounts[k]
            == st.accounts[k] by {
            assert(next.accounts[k] == st.accounts[k]);
        }
        assert forall|j: int| i <= j < residues.len() implies holds_residue(
            end.accounts[env.remaining@[st.next + (j - i)] as int],
            env,
            withdrawal_period,
            st.counter.next_id + (j - i),
            #[trigger] residues[j],
        ) by {
            if j > i {
                assert(next.next + (j - (i + 1)) == st.next + (j - i));
                assert(next.counter.next_id + (j - (i + 1)) == st.counter.next_id + (j - i));
            }
        }
    }
}

/// A plan that is carried out opens one vault for every residue, in the accounts
/// behind those of its sources. The vaults are numbered in order from the payer's
/// counter, which moves on by as many, and there are as many as the caller expects.
pub proof fn residue_vaults_are_numbered_in_order(
    ctx: PayFromFundingPlan,
    sources: Seq<FundingSourceSpec>,
    expected_total: u64,
    residue_vault_count: u8,
    now: i64,
)
    requires
        places_valid(ctx.remaining@, ctx.accounts@),
        funding_plan(ctx, sources, expected_total, residue_vault_count, now) is Ok,
    ensures
        ({
            let env = plan_env(ctx, now);
            let st = after_sources(env, no_draws(ctx.accounts@), sources, 0)->Ok_0;
            let o = funding_plan(ctx, sources, expected_total, residue_vault_count, now)->Ok_0;
            &&& st.residues.len() == residue_vault_count
            &&& ctx.remaining@.len() == st.next + residue_vault_count
            &&& o.counter == (WithdrawalCounter {
                next_id: (ctx.withdrawal_counter.next_id + residue_vault_count) as u64,
                ..counter_in_use(ctx.withdrawal_counter, ctx.payer, ctx.withdrawal_counter_bump)
            })
            &&& ctx.withdrawal_counter.next_id + residue_vault_count <= u64::MAX
            &&& forall|j: int|
                0 <= j < st.residues.len() ==> holds_residue(
                    o.accounts[ctx.remaining@[st.next + j] as int],
                    env,
                    ctx.settings.withdrawal_period,
                    ctx.withdrawal_counter.next_id + j,
                    #[trigger] st.residues[j],
                )
        }),
{
    let env = plan_env(ctx, now);
    let start = no_draws(ctx.accounts@);
    let st = after_sources(env, start, sources, 0)->Ok_0;
    lemma_sources_spare_protected(env, start, sources, 0);
    let vaults = VaultState {
        accounts: st.accounts,
        next: st.next,
        counter: counter_in_use(ctx.withdrawal_counter, ctx.payer, ctx.withdrawal_counter_bump),
        events: st.events,
    };
    lemma_residues_numbered(env, ctx.settings.withdrawal_period, vaults, st.residues, 0);
}

/// A draw on a delegation takes as much out of the gateway's stake as out of the
/// delegation, and leaves it empty or at the gateway's minimum at least.
pub proof fn delegation_draw_is_balanced(gateway: Gateway, delegation: Delegation, amount: u64)
    requires
        delegation_draw_refusal(gateway, delegation, amount) is None,
    ensures
        ({
            let settled = settled_delegation(gateway.cumulative_reward_per_token, delegation);
            let (g, d, residue) = delegation_drawn(gateway, delegation, amount);
            &&& settled.amount - d.amount == amount + residue
            &&& settled_stake(gateway, delegation) - g.total_delegated_stake == amount + residue
            &&& d.amount == 0 || d.amount >= gateway.settings.min_delegation_amount
            &&& 0 <= residue
            &&& residue == 0 || residue < gateway.settings.min_delegation_amount
        }),
{
    crate::state::rewards::settling_only_adds(gateway, delegation);
}

/// What the first `n` sources of one kind come to.
pub open spec fn drawn_on(sources: Seq<FundingSourceSpec>, kind: FundingSourceKind, n: int) -> int {
    sum_of(
        n,
        |i: int|
            if sources[i].kind == kind {
                sources[i].amount as int
            } else {
                0
            },
    )
}

/// How many accounts the first `n` sources take: two for a delegation, none for the payer's
/// own tokens, and one for each of the others.
pub open spec fn accounts_taken(sources: Seq<FundingSourceSpec>, n: int) -> int {
    sum_of(
        n,
        |i: int|
            match sources[i].kind {
                FundingSourceKind::Balance => 0,
                FundingSourceKind::Delegation => 2,
                FundingSourceKind::OperatorStake => 1,
                FundingSourceKind::Withdrawal => 1,
            },
    )
}

/// How many of the first `n` sources are drawn on stake, and so reported.
pub open spec fn sources_reported(sources: Seq<FundingSourceSpec>, n: int) -> int {
    sum_of(
        n,
        |i: int|
            if sources[i].kind == FundingSourceKind::Balance {
                0
            } else {
                1
            },
    )
}

proof fn lemma_count_is_filter(sources: Seq<FundingSourceSpec>, kind: FundingSourceKind, n: int)
    requires
        0 <= n <= sources.len(),
    ensures
        count_of(sources, kind, n) == sources.take(n).filter(|s: FundingSourceSpec| s.kind == kind).len(),
    decreases n,
{
    reveal(Seq::filter);
    if n > 0 {
        lemma_count_is_filter(sources, kind, n - 1);
        assert(sources.take(n).drop_last() =~= sources.take(n - 1));
    }
}

proof fn lemma_total_is_sum(sources: Seq<FundingSourceSpec>, n: int)
    ensures
        total_of(sources, n) == sum_of(n, |i: int| sources[i].amount as int),
    decreases n,
{
    if n > 0 {
        lemma_total_is_sum(sources, n - 1);
    }
}

proof fn lemma_amounts(sources: Seq<FundingSourceSpec>, i: int)
    requires
        0 <= i <= sources.len(),
    ensures
        match amounts_refusal(sources, i) {
            None => forall|j: int| i <= j < sources.len() ==> (#[trigger] sources[j]).amount > 0,
            Some(e) => {
                ||| e == GarError::ZeroFundingSourceAmount && exists|j: int|
                    i <= j < sources.len() && (#[trigger] sources[j]).amount == 0
                ||| e == GarError::ArithmeticOverflow && total_of(sources, sources.len() as int) > u64::MAX
            },
        },
    decreases sources.len() - i,
{
    if i < sources.len() {
        lemma_amounts(sources, i + 1);
        lemma_total_grows(sources, i + 1, sources.len() as int);
    }
}

/// A plan has one to five sources, three delegations and one operator stake at most; no
/// amount is zero, and the amounts add up to what is expected.
pub proof fn plan_is_small_and_adds_up(
    sources: Vec<FundingSourceSpec>,
    expected_total: u64,
    r: Result<(), GarError>,
)
    requires
        call_ensures(check_plan, (&sources, expected_total), r),
    ensures
        ({
            let delegations = sources@.filter(|s: FundingSourceSpec| s.kind == FundingSourceKind::Delegation).len();
            let stakes = sources@.filter(|s: FundingSourceSpec| s.kind == FundingSourceKind::OperatorStake).len();
            let total = sum_of(sources@.len() as int, |i: int| sources@[i].amount as int);
            &&& r is Ok <==> {
                &&& 1 <= sources@.len() <= 5
                &&& delegations <= 3
                &&& stakes <= 1
                &&& forall|i: int| 0 <= i < sources@.len() ==> (#[trigger] sources@[i]).amount > 0
                &&& total == expected_total
            }
            &&& r matches Err(e) ==> match e {
                GarError::EmptyFundingPlan => sources@.len() == 0,
                GarError::TooManyFundingSources => sources@.len() > 5,
                GarError::TooManyDelegationSources => delegations > 3,
                GarError::OnlyOneOperatorStakeSource => stakes > 1,
                GarError::ZeroFundingSourceAmount => exists|i: int|
                    0 <= i < sources@.len() && (#[trigger] sources@[i]).amount == 0,
                GarError::ArithmeticOverflow => total > u64::MAX,
                GarError::FundingPlanAmountMismatch => total != expected_total,
                _ => false,
            }
        }),
{
    let n = sources@.len() as int;
    assert(sources@.take(n) =~= sources@);
    lemma_count_is_filter(sources@, FundingSourceKind::Delegation, n);
    lemma_count_is_filter(sources@, FundingSourceKind::OperatorStake, n);
    lemma_total_is_sum(sources@, n);
    lemma_amounts(sources@, 0);
}

/// A gateway is drawn on once, at its own address, while it is joined.
pub proof fn source_gateway_is_joined_and_new(
    key: Pubkey,
    expected: Pubkey,
    gateway: Gateway,
    seen: Vec<Pubkey>,
    r: Result<(), GarError>,
)
    requires
        call_ensures(check_source_gateway, (&key, &expected, &gateway, &seen), r),
    ensures
        r is Ok <==> key == expected && gateway.status == GatewayStatus::Joined && forall|i: int|
            0 <= i < seen@.len() ==> #[trigger] seen@[i] != gateway.operator,
        r matches Err(e) ==> match e {
            GarError::InvalidGatewayAccount => key != expected,
            GarError::DuplicateGatewayInSources => exists|i: int|
                0 <= i < seen@.len() && #[trigger] seen@[i] == gateway.operator,
            GarError::GatewayNotJoined => gateway.status != GatewayStatus::Joined,
            _ => false,
        },
{
}

/// A draw on a delegation settles its rewards, and then takes the amount, and with it
/// whatever would stay below the gateway's minimum, off delegation and gateway alike. What
/// is taken beside the amount is handed out as residue.
pub proof fn delegation_draw_leaves_nothing_below_the_minimum(
    gateway: &mut Gateway,
    delegation: &mut Delegation,
    amount: u64,
    r: Result<u64, GarError>,
)
    requires
        call_ensures(draw_delegation, (gateway, delegation, amount), r),
    ensures
        r matches Err(e) ==> match e {
            GarError::InsufficientDelegationForPayment => old(delegation).amount < amount,
            GarError::ArithmeticUnderflow => final(gateway).total_delegated_stake < final(delegation).amount,
            _ => false,
        },
        r matches Ok(residue) ==> {
            let (g, g2) = (*old(gateway), *final(gateway));
            let (d, d2) = (*old(delegation), *final(delegation));
            let c = g.cumulative_reward_per_token;
            &&& d2.amount == 0 || d2.amount >= g.settings.min_delegation_amount
            &&& residue > 0 ==> d2.amount == 0 && residue < g.settings.min_delegation_amount
            &&& d2 == (Delegation { amount: d2.amount, reward_debt: c, ..d })
            &&& g2 == (Gateway { total_delegated_stake: g2.total_delegated_stake, ..g })
            &&& d2.amount + amount + residue < u64::MAX ==> gains(
                d.amount,
                d.reward_debt,
                c,
                d2.amount + amount + residue - d.amount,
            )
            &&& g2.total_delegated_stake + amount + residue < u64::MAX ==> gains(
                d.amount,
                d.reward_debt,
                c,
                g2.total_delegated_stake + amount + residue - g.total_delegated_stake,
            )
        },
{
    lemma_settled_gains(*old(gateway), *old(delegation));
}

/// A draw on operator stake takes exactly the amount, from the payer's own gateway, and
/// leaves the minimum.
pub proof fn operator_draw_leaves_the_minimum(
    gateway: &mut Gateway,
    payer: Pubkey,
    min_operator_stake: u64,
    amount: u64,
    r: Result<(), GarError>,
)
    requires
        call_ensures(draw_operator_stake, (gateway, &payer, min_operator_stake, amount), r),
    ensures
        ({
            let (g, g2) = (*old(gateway), *final(gateway));
            &&& r is Ok <==> g.operator == payer && g.operator_stake >= amount + min_operator_stake
            &&& r is Ok ==> g2.operator_stake + amount == g.operator_stake
            &&& g2 == (Gateway { operator_stake: g2.operator_stake, ..g })
            &&& r matches Err(e) ==> g2 == g && match e {
                GarError::NotOperator => g.operator != payer,
                GarError::InsufficientOperatorStakeForPayment => g.operator_stake < amount,
                GarError::StakeBelowMinimum => amount <= g.operator_stake < amount + min_operator_stake,
                _ => false,
            }
        }),
{
}

/// A draw on a withdrawal takes exactly the amount, unless the vault is protected.
pub proof fn withdrawal_draw_takes_the_amount(
    key: Pubkey,
    expected: Pubkey,
    withdrawal: &mut Withdrawal,
    amount: u64,
    r: Result<(), GarError>,
)
    requires
        call_ensures(draw_withdrawal, (&key, &expected, withdrawal, amount), r),
    ensures
        ({
            let (w, w2) = (*old(withdrawal), *final(withdrawal));
            &&& r is Ok <==> key == expected && !w.is_protected && w.amount >= amount
            &&& r is Ok ==> w2.amount + amount == w.amount
            &&& w2 == (Withdrawal { amount: w2.amount, ..w })
            &&& r matches Err(e) ==> w2 == w && match e {
                GarError::InvalidParameter => key != expected,
                GarError::ProtectedVault => w.is_protected,
                GarError::InsufficientWithdrawalForPayment => w.amount < amount,
                _ => false,
            }
        }),
{
}

/// The vault for a residue is an ordinary withdrawal of the payer, locked for the withdrawal
/// period, in an empty account at the address of the payer's next withdrawal.
pub proof fn residue_is_locked_for_the_period(
    account: FundingAccount,
    expected: Pubkey,
    bump: u8,
    owner: Pubkey,
    withdrawal_id: u64,
    gateway: Pubkey,
    amount: u64,
    now: i64,
    withdrawal_period: i64,
    r: Result<Withdrawal, GarError>,
)
    requires
        call_ensures(
            open_residue_vault,
            (&account, &expected, bump, &owner, withdrawal_id, &gateway, amount, now, withdrawal_period),
            r,
        ),
    ensures
        r is Ok <==> account.key == expected && account.data is Empty && i64::MIN <= now + withdrawal_period <= i64::MAX,
        r matches Err(e) ==> match e {
            GarError::InvalidParameter => account.key != expected || !(account.data is Empty),
            GarError::ArithmeticOverflow => now + withdrawal_period > i64::MAX || now + withdrawal_period < i64::MIN,
            _ => false,
        },
        r matches Ok(w) ==> {
            &&& w.owner == owner && w.withdrawal_id == withdrawal_id && w.gateway == gateway
            &&& w.amount == amount
            &&& w.created_at == now
            &&& w.available_at == now + withdrawal_period
            &&& w.is_delegate && !w.is_exit_vault && !w.is_protected
            &&& w.bump == bump
            &&& w.version.major == 1 && w.version.minor == 0 && w.version.patch == 0
        },
{
}

/// Two accounts differ in no more than what a draw changes.
spec fn same_source(a: FundingAccount, b: FundingAccount) -> bool {
    &&& a.key == b.key && a.owned == b.owned
    &&& match a.data {
        AccountData::Gateway(g) => b.data matches AccountData::Gateway(h) && h.operator == g.operator && h.status
            == g.status,
        AccountData::Delegation(d) => b.data matches AccountData::Delegation(e) && e.delegator == d.delegator,
        AccountData::Withdrawal(w) => b.data matches AccountData::Withdrawal(v) && v.owner == w.owner
            && v.withdrawal_id == w.withdrawal_id && v.is_protected == w.is_protected,
        AccountData::Empty => b.data is Empty,
        AccountData::Other => b.data is Other,
    }
}

/// The gateway in the account at a place of the list of remaining accounts.
pub open spec fn gateway_in(accounts: Seq<FundingAccount>, remaining: Seq<usize>, at: int) -> Gateway {
    accounts[remaining[at] as int].data->Gateway_0
}

/// The accounts of source `i` are what the source calls for: a joined gateway at its own
/// address, with the payer's delegation to it or run by the payer, or a vault of the payer
/// that is not protected.
pub open spec fn source_is_the_payers(
    accounts: Seq<FundingAccount>,
    remaining: Seq<usize>,
    sources: Seq<FundingSourceSpec>,
    payer: Pubkey,
    program_id: Pubkey,
    has_tokens: bool,
    i: int,
) -> bool {
    let at = accounts_taken(sources, i);
    let account = accounts[remaining[at] as int];
    match sources[i].kind {
        FundingSourceKind::Balance => has_tokens,
        FundingSourceKind::Delegation => {
            &&& at + 2 <= remaining.len()
            &&& account.data matches AccountData::Gateway(g)
            &&& g.status == GatewayStatus::Joined
            &&& gateway_pda(g.operator, program_id) matches Some((address, _))
            &&& account.key == address
            &&& accounts[remaining[at + 1] as int].data matches AccountData::Delegation(d)
            &&& d.delegator == payer
            &&& delegation_pda(g.operator, payer, program_id) matches Some((place, _))
            &&& accounts[remaining[at + 1] as int].key == place
        },
        FundingSourceKind::OperatorStake => {
            &&& at + 1 <= remaining.len()
            &&& account.data matches AccountData::Gateway(g)
            &&& g.status == GatewayStatus::Joined
            &&& g.operator == payer
            &&& gateway_pda(g.operator, program_id) matches Some((address, _))
            &&& account.key == address
        },
        FundingSourceKind::Withdrawal => {
            &&& at + 1 <= remaining.len()
            &&& account.owned
            &&& account.data matches AccountData::Withdrawal(w)
            &&& w.owner == payer
            &&& !w.is_protected
            &&& withdrawal_pda(payer, w.withdrawal_id, program_id) matches Some((address, _))
            &&& account.key == address
        },
    }
}

/// Whether source `i` draws on a gateway.
pub open spec fn draws_on_gateway(sources: Seq<FundingSourceSpec>, i: int) -> bool {
    sources[i].kind == FundingSourceKind::Delegation || sources[i].kind == FundingSourceKind::OperatorStake
}

proof fn lemma_sources_add_up(
    env: PlanEnv,
    st: DrawState,
    sources: Seq<FundingSourceSpec>,
    i: int,
    first: Seq<FundingAccount>,
)
    requires
        0 <= i <= sources.len(),
        0 <= st.next <= env.remaining@.len(),
        places_valid(env.remaining@, st.accounts),
        after_sources(env, st, sources, i) is Ok,
        st.balance == drawn_on(sources, FundingSourceKind::Balance, i),
        st.delegated == drawn_on(sources, FundingSourceKind::Delegation, i),
        st.staked == drawn_on(sources, FundingSourceKind::OperatorStake, i),
        st.withdrawn == drawn_on(sources, FundingSourceKind::Withdrawal, i),
        st.pool == st.delegated + st.staked + st.withdrawn,
        st.next == accounts_taken(sources, i),
        st.events.len() == sources_reported(sources, i),
        first.len() == st.accounts.len(),
        forall|k: int| 0 <= k < first.len() ==> same_source(first[k], #[trigger] st.accounts[k]),
        forall|k: int| 0 <= k < st.residues.len() ==> (#[trigger] st.residues[k]).1 > 0,
    ensures
        ({
            let end = after_sources(env, st, sources, i)->Ok_0;
            let n = sources.len() as int;
            &&& end.balance == drawn_on(sources, FundingSourceKind::Balance, n)
            &&& end.delegated == drawn_on(sources, FundingSourceKind::Delegation, n)
            &&& end.staked == drawn_on(sources, FundingSourceKind::OperatorStake, n)
            &&& end.withdrawn == drawn_on(sources, FundingSourceKind::Withdrawal, n)
            &&& end.pool == end.delegated + end.staked + end.withdrawn
            &&& end.next == accounts_taken(sources, n)
            &&& end.events.len() == sources_reported(sources, n)
            &&& end.accounts.len() == first.len()
            &&& forall|k: int| 0 <= k < first.len() ==> same_source(first[k], #[trigger] end.accounts[k])
            &&& forall|k: int| 0 <= k < end.residues.len() ==> (#[trigger] end.residues[k]).1 > 0
            &&& forall|j: int|
                i <= j < n ==> #[trigger] source_is_the_payers(
                    first,
                    env.remaining@,
                    sources,
                    env.payer,
                    env.program_id,
                    env.has_payer_token_account,
                    j,
                )
            &&& forall|k: int| 0 <= k < st.events.len() ==> #[trigger] end.events[k] == st.events[k]
            &&& forall|j: int|
                i <= j < n && sources[j].kind != FundingSourceKind::Balance ==> source_is_reported(
                    first,
                    env.remaining@,
                    sources,
                    env.payer,
                    env.now,
                    j,
                    #[trigger] end.events[sources_reported(sources, j)],
                )
            &&& forall|j: int, k: int|
                i <= j < n && draws_on_gateway(sources, j) && 0 <= k < st.seen.len() ==> gateway_in(
                    first,
                    env.remaining@,
                    #[trigger] accounts_taken(sources, j),
                ).operator != #[trigger] st.seen[k]
            &&& forall|j: int, k: int|
                i <= j < k < n && draws_on_gateway(sources, j) && draws_on_gateway(sources, k) ==> gateway_in(
                    first,
                    env.remaining@,
                    #[trigger] accounts_taken(sources, j),
                ).operator != gateway_in(first, env.remaining@, #[trigger] accounts_taken(sources, k)).operator
        }),
    decreases sources.len() - i,
{
    if i < sources.len() {
        let next = after_source(env, st, sources[i])->Ok_0;
        let end = after_sources(env, st, sources, i)->Ok_0;
        assert(same_source(first[env.remaining@[st.next] as int], st.accounts[env.remaining@[st.next] as int])
            || sources[i].kind == FundingSourceKind::Balance);
        if sources[i].kind == FundingSourceKind::Delegation {
            assert(same_source(
                first[env.remaining@[st.next + 1] as int],
                st.accounts[env.remaining@[st.next + 1] as int],
            ));
        }
        assert forall|k: int| 0 <= k < first.len() implies same_source(first[k], #[trigger] next.accounts[k]) by {
            assert(same_source(first[k], st.accounts[k]));
        }
        assert forall|k: int| 0 <= k < next.residues.len() implies (#[trigger] next.residues[k]).1 > 0 by {
            if k < st.residues.len() {
                assert(st.residues[k].1 > 0);
            }
        }
        lemma_sources_add_up(env, next, sources, i + 1, first);
        assert(source_is_the_payers(
            first,
            env.remaining@,
            sources,
            env.payer,
            env.program_id,
            env.has_payer_token_account,
            i,
        ));
        if sources[i].kind != FundingSourceKind::Balance {
            assert(end.events[st.events.len() as int] == next.events[st.events.len() as int]);
        }
        if draws_on_gateway(sources, i) {
            let operator = gateway_in(first, env.remaining@, st.next).operator;
            assert(next.seen == st.seen.push(operator));
            assert(next.seen[st.seen.len() as int] == operator);
        }
        assert forall|j: int, k: int|
            i <= j < sources.len() && draws_on_gateway(sources, j) && 0 <= k < st.seen.len() implies gateway_in(
            first,
            env.remaining@,
            #[trigger] accounts_taken(sources, j),
        ).operator != #[trigger] st.seen[k] by {
            if j > i {
                assert(next.seen[k] == st.seen[k]);
            }
        }
    }
}

/// The report of source `i`: the payer, the gateway that was drawn on and whether as a
/// delegate, or the number of the vault, with the amount and the time.
pub open spec fn source_is_reported(
    accounts: Seq<FundingAccount>,
    remaining: Seq<usize>,
    sources: Seq<FundingSourceSpec>,
    payer: Pubkey,
    now: i64,
    i: int,
    event: FundingEvent,
) -> bool {
    let at = accounts_taken(sources, i);
    match sources[i].kind {
        FundingSourceKind::Balance => false,
        FundingSourceKind::Delegation => event matches FundingEvent::Stake(e) && e.payer == payer && e.gateway
            == gateway_in(accounts, remaining, at).operator && e.amount == sources[i].amount && e.is_delegate
            && e.timestamp == now,
        FundingSourceKind::OperatorStake => event matches FundingEvent::Stake(e) && e.payer == payer && e.gateway
            == gateway_in(accounts, remaining, at).operator && e.amount == sources[i].amount && !e.is_delegate
            && e.timestamp == now,
        FundingSourceKind::Withdrawal => event matches FundingEvent::Withdrawal(e) && e.owner == payer
            && e.withdrawal_id == accounts[remaining[at] as int].data->Withdrawal_0.withdrawal_id && e.amount
            == sources[i].amount && e.timestamp == now,
    }
}

proof fn lemma_residue_events(
    env: PlanEnv,
    withdrawal_period: i64,
    st: VaultState,
    residues: Seq<(Pubkey, u64)>,
    i: int,
)
    requires
        0 <= i <= residues.len(),
        after_residues(env, withdrawal_period, st, residues, i) is Ok,
    ensures
        ({
            let end = after_residues(env, withdrawal_period, st, residues, i)->Ok_0;
            &&& end.events.len() == st.events.len() + (residues.len() - i)
            &&& forall|k: int| 0 <= k < st.events.len() ==> #[trigger] end.events[k] == st.events[k]
            &&& forall|j: int|
                i <= j < residues.len() ==> {
                    let e = #[trigger] end.events[st.events.len() + (j - i)];
                    e matches FundingEvent::Residue(v) && v.owner == env.payer && v.withdrawal_id
                        == st.counter.next_id + (j - i) && v.gateway == residues[j].0 && v.amount == residues[j].1
                        && v.available_at == env.now + withdrawal_period && v.timestamp == env.now
                }
        }),
    decreases residues.len() - i,
{
    if i < residues.len() {
        let next = after_residue(env, withdrawal_period, st, residues[i])->Ok_0;
        lemma_residue_events(env, withdrawal_period, next, residues, i + 1);
        let end = after_residues(env, withdrawal_period, st, residues, i)->Ok_0;
        assert(end.events[st.events.len() as int] == next.events[st.events.len() as int]);
        assert forall|j: int| i <= j < residues.len() implies ({
            let e = #[trigger] end.events[st.events.len() + (j - i)];
            e matches FundingEvent::Residue(v) && v.owner == env.payer && v.withdrawal_id == st.counter.next_id + (j
                - i) && v.gateway == residues[j].0 && v.amount == residues[j].1 && v.available_at == env.now
                + withdrawal_period && v.timestamp == env.now
        }) by {
            if j > i {
                assert(next.events.len() + (j - (i + 1)) == st.events.len() + (j - i));
                assert(end.events[next.events.len() + (j - (i + 1))] is Residue);
            }
        }
    }
}

/// What lies in the vault for residue `j`, once it is open.
pub open spec fn vault_in(accounts: Seq<FundingAccount>, remaining: Seq<usize>, at: int) -> Withdrawal {
    accounts[remaining[at] as int].data->Withdrawal_0
}

proof fn lemma_plan_parts(
    ctx: PayFromFundingPlan,
    sources: Seq<FundingSourceSpec>,
    expected_total: u64,
    residue_vault_count: u8,
    now: i64,
)
    requires
        places_valid(ctx.remaining@, ctx.accounts@),
        funding_plan(ctx, sources, expected_total, residue_vault_count, now) is Ok,
    ensures
        ({
            let env = plan_env(ctx, now);
            let st = after_sources(env, no_draws(ctx.accounts@), sources, 0)->Ok_0;
            let o = funding_plan(ctx, sources, expected_total, residue_vault_count, now)->Ok_0;
            let taken = accounts_taken(sources, sources.len() as int);
            &&& st.next == taken
            &&& residue_total(st.residues, st.residues.len() as int) == sum_of(
                residue_vault_count as int,
                |j: int| vault_in(o.accounts, ctx.remaining@, taken + j).amount as int,
            )
        }),
{
    let env = plan_env(ctx, now);
    let start = no_draws(ctx.accounts@);
    let st = after_sources(env, start, sources, 0)->Ok_0;
    let o = funding_plan(ctx, sources, expected_total, residue_vault_count, now)->Ok_0;
    lemma_sources_add_up(env, start, sources, 0, ctx.accounts@);
    residue_vaults_are_numbered_in_order(ctx, sources, expected_total, residue_vault_count, now);
    let taken = accounts_taken(sources, sources.len() as int);
    let a = |j: int| st.residues[j].1 as int;
    let b = |j: int| vault_in(o.accounts, ctx.remaining@, taken + j).amount as int;
    lemma_residue_total_is_sum(st.residues, st.residues.len() as int);
    assert forall|j: int| 0 <= j < residue_vault_count implies #[trigger] a(j) == b(j) by {
        assert(holds_residue(
            o.accounts[ctx.remaining@[st.next + j] as int],
            env,
            ctx.settings.withdrawal_period,
            ctx.withdrawal_counter.next_id + j,
            st.residues[j],
        ));
    }
    lemma_sum_of_equal_terms(residue_vault_count as int, a, b);
}

proof fn lemma_residue_total_is_sum(residues: Seq<(Pubkey, u64)>, n: int)
    ensures
        residue_total(residues, n) == sum_of(n, |j: int| residues[j].1 as int),
    decreases n,
{
    if n > 0 {
        lemma_residue_total_is_sum(residues, n - 1);
    }
}

/// A plan that is carried out pays the treasury what the sources say: the payer's own
/// tokens from their account, all else from the stake pool. The counters of staked,
/// delegated and withdrawn tokens fall by what is drawn on each; a residue counts as
/// withdrawn instead of delegated.
pub proof fn plan_draws_what_its_sources_say(
    ctx: PayFromFundingPlan,
    sources: Vec<FundingSourceSpec>,
    expected_total: u64,
    residue_vault_count: u8,
    now: i64,
    o: Outcome<PayFromFundingPlan, Vec<FundingEvent>>,
)
    requires
        places_valid(ctx.remaining@, ctx.accounts@),
        call_ensures(
            pay_from_funding_plan,
            (ctx, sources, expected_total, residue_vault_count, now),
            Ok::<_, Refusal>(o),
        ),
    ensures
        ({
            let n = sources@.len() as int;
            let tokens = drawn_on(sources@, FundingSourceKind::Balance, n);
            let delegated = drawn_on(sources@, FundingSourceKind::Delegation, n);
            let staked = drawn_on(sources@, FundingSourceKind::OperatorStake, n);
            let withdrawn = drawn_on(sources@, FundingSourceKind::Withdrawal, n);
            let pool = delegated + staked + withdrawn;
            let taken = accounts_taken(sources@, n);
            let residue = sum_of(
                residue_vault_count as int,
                |j: int| vault_in(o.accounts.accounts@, ctx.remaining@, taken + j).amount as int,
            );
            let (s, s2) = (ctx.settings, o.accounts.settings);
            let (c, c2) = (ctx.withdrawal_counter, o.accounts.withdrawal_counter);
            &&& tokens + pool == expected_total
            &&& ctx.stake_token_account == s.stake_token_account
            &&& ctx.protocol_token_account == s.protocol_token_account
            &&& pool > 0 && tokens > 0 ==> o.transfers@ == seq![
                TokenTransfer { from: Holder::StakePool, to: Holder::Treasury, amount: pool as u64 },
                TokenTransfer { from: Holder::Wallet, to: Holder::Treasury, amount: tokens as u64 },
            ]
            &&& pool > 0 && tokens == 0 ==> o.transfers@ == seq![
                TokenTransfer { from: Holder::StakePool, to: Holder::Treasury, amount: pool as u64 },
            ]
            &&& pool == 0 ==> o.transfers@ == seq![
                TokenTransfer { from: Holder::Wallet, to: Holder::Treasury, amount: tokens as u64 },
            ]
            &&& s2 == (GatewaySettings {
                total_delegated: s2.total_delegated,
                total_staked: s2.total_staked,
                total_withdrawn: s2.total_withdrawn,
                ..s
            })
            &&& falls_by(s.total_delegated, s2.total_delegated, delegated + residue)
            &&& falls_by(s.total_staked, s2.total_staked, staked)
            &&& s.total_withdrawn >= withdrawn && residue <= u64::MAX ==> s2.total_withdrawn == s.total_withdrawn
                - withdrawn + residue
            &&& s.total_withdrawn < withdrawn && residue <= u64::MAX ==> s2.total_withdrawn == residue
            // Every account was called for, and every vault is numbered by the counter.
            &&& ctx.remaining@.len() == taken + residue_vault_count
            &&& c2.next_id == c.next_id + residue_vault_count
            &&& c.bump != 0 ==> c2 == (WithdrawalCounter { next_id: c2.next_id, ..c })
            &&& c.bump == 0 ==> c2.owner == ctx.payer && c2.bump == ctx.withdrawal_counter_bump
            &&& c.bump == 0 ==> c2.version.major == 1 && c2.version.minor == 0 && c2.version.patch == 0
            // The last event sums the plan up.
            &&& o.event@.len() == sources_reported(sources@, n) + residue_vault_count + 1
            &&& o.event@.last() matches FundingEvent::Applied(e) && e.payer == ctx.payer && e.total_funded
                == expected_total && e.source_count == n && (e.created_residue_vault <==> residue_vault_count > 0)
                && e.timestamp == now
        }),
{
    let env = plan_env(ctx, now);
    let start = no_draws(ctx.accounts@);
    let st = after_sources(env, start, sources@, 0)->Ok_0;
    lemma_sources_add_up(env, start, sources@, 0, ctx.accounts@);
    lemma_sources_booked(env, start, sources@, 0);
    lemma_amounts_fit(sources@, 0);
    lemma_plan_parts(ctx, sources@, expected_total, residue_vault_count, now);
    lemma_residues_not_negative(st.residues, st.residues.len() as int);
    residue_vaults_are_numbered_in_order(ctx, sources@, expected_total, residue_vault_count, now);
    let vaults = VaultState {
        accounts: st.accounts,
        next: st.next,
        counter: counter_in_use(ctx.withdrawal_counter, ctx.payer, ctx.withdrawal_counter_bump),
        events: st.events,
    };
    lemma_residue_events(env, ctx.settings.withdrawal_period, vaults, st.residues, 0);
    if st.pool == 0 {
        lemma_amounts(sources@, 0);
        lemma_total_grows(sources@, 1, sources@.len() as int);
        assert(total_of(sources@, 1) == total_of(sources@, 0) + sources@[0].amount);
    }
}

/// Every source of a plan that is carried out belongs to the payer, and no gateway is drawn
/// on twice. Every source is reported in its turn.
pub proof fn plan_draws_on_the_payers_own_sources(
    ctx: PayFromFundingPlan,
    sources: Vec<FundingSourceSpec>,
    expected_total: u64,
    residue_vault_count: u8,
    now: i64,
    i: int,
    k: int,
    o: Outcome<PayFromFundingPlan, Vec<FundingEvent>>,
)
    requires
        places_valid(ctx.remaining@, ctx.accounts@),
        call_ensures(
            pay_from_funding_plan,
            (ctx, sources, expected_total, residue_vault_count, now),
            Ok::<_, Refusal>(o),
        ),
        0 <= i < sources@.len(),
        0 <= k < sources@.len(),
    ensures
        source_is_the_payers(
            ctx.accounts@,
            ctx.remaining@,
            sources@,
            ctx.payer,
            ctx.program_id,
            ctx.has_payer_token_account,
            i,
        ),
        sources@[i].kind != FundingSourceKind::Balance ==> source_is_reported(
            ctx.accounts@,
            ctx.remaining@,
            sources@,
            ctx.payer,
            now,
            i,
            o.event@[sources_reported(sources@, i)],
        ),
        i != k && draws_on_gateway(sources@, i) && draws_on_gateway(sources@, k) ==> gateway_in(
            ctx.accounts@,
            ctx.remaining@,
            accounts_taken(sources@, i),
        ).operator != gateway_in(ctx.accounts@, ctx.remaining@, accounts_taken(sources@, k)).operator,
{
    let env = plan_env(ctx, now);
    let start = no_draws(ctx.accounts@);
    let st = after_sources(env, start, sources@, 0)->Ok_0;
    lemma_sources_add_up(env, start, sources@, 0, ctx.accounts@);
    let vaults = VaultState {
        accounts: st.accounts,
        next: st.next,
        counter: counter_in_use(ctx.withdrawal_counter, ctx.payer, ctx.withdrawal_counter_bump),
        events: st.events,
    };
    lemma_residue_events(env, ctx.settings.withdrawal_period, vaults, st.residues, 0);
    lemma_reported_grows(sources@, i, sources@.len() as int);
    if sources@[i].kind != FundingSourceKind::Balance {
        assert(sources_reported(sources@, i + 1) == sources_reported(sources@, i) + 1);
        lemma_reported_grows(sources@, i + 1, sources@.len() as int);
        let at = sources_reported(sources@, i);
        assert(o.event@[at] == st.events[at]);
    }
}

proof fn lemma_reported_grows(sources: Seq<FundingSourceSpec>, m: int, n: int)
    requires
        0 <= m <= n,
    ensures
        0 <= sources_reported(sources, m) <= sources_reported(sources, n),
    decreases n,
{
    if m < n {
        lemma_reported_grows(sources, m, n - 1);
    } else if m > 0 {
        lemma_reported_grows(sources, m - 1, n - 1);
    }
}

/// The vaults for residues lie behind the accounts of the sources, which were empty, at the
/// addresses of the payer's next withdrawals, and are locked for the withdrawal period. Each
/// is reported with its amount.
pub proof fn residues_are_locked_in_the_payers_vaults(
    ctx: PayFromFundingPlan,
    sources: Vec<FundingSourceSpec>,
    expected_total: u64,
    residue_vault_count: u8,
    now: i64,
    j: int,
    o: Outcome<PayFromFundingPlan, Vec<FundingEvent>>,
)
    requires
        places_valid(ctx.remaining@, ctx.accounts@),
        call_ensures(
            pay_from_funding_plan,
            (ctx, sources, expected_total, residue_vault_count, now),
            Ok::<_, Refusal>(o),
        ),
        0 <= j < residue_vault_count,
    ensures
        ({
            let n = sources@.len() as int;
            let at = accounts_taken(sources@, n) + j;
            let account = o.accounts.accounts@[ctx.remaining@[at] as int];
            let id = ctx.withdrawal_counter.next_id + j;
            &&& account.owned
            &&& id < u64::MAX
            &&& withdrawal_pda(ctx.payer, id as u64, ctx.program_id) matches Some((address, bump))
            &&& account.key == address
            &&& account.data matches AccountData::Withdrawal(w)
            &&& w.owner == ctx.payer && w.withdrawal_id == id
            &&& w.amount > 0
            &&& w.created_at == now
            &&& w.available_at == now + ctx.settings.withdrawal_period
            &&& w.is_delegate && !w.is_exit_vault && !w.is_protected
            &&& w.bump == bump
            &&& w.version.major == 1 && w.version.minor == 0 && w.version.patch == 0
            &&& o.event@[sources_reported(sources@, n) + j] matches FundingEvent::Residue(e)
            &&& e.owner == ctx.payer && e.withdrawal_id == id && e.gateway == w.gateway && e.amount == w.amount
                && e.available_at == w.available_at && e.timestamp == now
        }),
{
    let env = plan_env(ctx, now);
    let start = no_draws(ctx.accounts@);
    let st = after_sources(env, start, sources@, 0)->Ok_0;
    lemma_sources_add_up(env, start, sources@, 0, ctx.accounts@);
    residue_vaults_are_numbered_in_order(ctx, sources@, expected_total, residue_vault_count, now);
    let vaults = VaultState {
        accounts: st.accounts,
        next: st.next,
        counter: counter_in_use(ctx.withdrawal_counter, ctx.payer, ctx.withdrawal_counter_bump),
        events: st.events,
    };
    lemma_residue_events(env, ctx.settings.withdrawal_period, vaults, st.residues, 0);
    assert(holds_residue(
        o.accounts.accounts@[ctx.remaining@[st.next + j] as int],
        env,
        ctx.settings.withdrawal_period,
        ctx.withdrawal_counter.next_id + j,
        st.residues[j],
    ));
    lemma_reported_grows(sources@, 0, sources@.len() as int);
    let at = sources_reported(sources@, sources@.len() as int) + j;
    let done = after_residues(env, ctx.settings.withdrawal_period, vaults, st.residues, 0)->Ok_0;
    assert(o.event@[at] == done.events[st.events.len() + (j - 0)]);
}

/// A plan that does not pass the check, or whose token accounts are not those of the
/// settings, is refused for just that.
pub proof fn plan_is_checked_first(
    ctx: PayFromFundingPlan,
    sources: Vec<FundingSourceSpec>,
    expected_total: u64,
    residue_vault_count: u8,
    now: i64,
    check: Result<(), GarError>,
    r: Result<Outcome<PayFromFundingPlan, Vec<FundingEvent>>, Refusal>,
)
    requires
        places_valid(ctx.remaining@, ctx.accounts@),
        call_ensures(check_plan, (&sources, expected_total), check),
        call_ensures(pay_from_funding_plan, (ctx, sources, expected_total, residue_vault_count, now), r),
    ensures
        ctx.stake_token_account != ctx.settings.stake_token_account || ctx.protocol_token_account
            != ctx.settings.protocol_token_account ==> r == Err::<Outcome<PayFromFundingPlan, Vec<FundingEvent>>, Refusal>(
            Refusal::Gar(GarError::InvalidParameter),
        ),
        ctx.stake_token_account == ctx.settings.stake_token_account && ctx.protocol_token_account
            == ctx.settings.protocol_token_account && check is Err ==> r == Err::<
            Outcome<PayFromFundingPlan, Vec<FundingEvent>>,
            Refusal,
        >(Refusal::Gar(check->Err_0)),
{
}

/// A plan with one source does to the source's accounts what the draw does: the gateway and
/// the delegation, the gateway, or the vault; no other account that holds anything changes.
/// What the draw leaves as residue is what lies in the one new vault.
pub proof fn plan_with_one_source_is_the_draw(
    ctx: PayFromFundingPlan,
    sources: Vec<FundingSourceSpec>,
    expected_total: u64,
    residue_vault_count: u8,
    now: i64,
    gateway: &mut Gateway,
    delegation: &mut Delegation,
    withdrawal: &mut Withdrawal,
    drawn: Result<u64, GarError>,
    staked: Result<(), GarError>,
    withdrawn: Result<(), GarError>,
    r: Result<Outcome<PayFromFundingPlan, Vec<FundingEvent>>, Refusal>,
)
    requires
        places_valid(ctx.remaining@, ctx.accounts@),
        sources@.len() == 1,
        sources@[0].amount > 0,
        sources@[0].amount == expected_total,
        ctx.stake_token_account == ctx.settings.stake_token_account,
        ctx.protocol_token_account == ctx.settings.protocol_token_account,
        source_is_the_payers(
            ctx.accounts@,
            ctx.remaining@,
            sources@,
            ctx.payer,
            ctx.program_id,
            ctx.has_payer_token_account,
            0,
        ),
        draws_on_gateway(sources@, 0) ==> *old(gateway) == gateway_in(ctx.accounts@, ctx.remaining@, 0),
        sources@[0].kind == FundingSourceKind::Delegation ==> *old(delegation)
            == ctx.accounts@[ctx.remaining@[1] as int].data->Delegation_0 && call_ensures(
            draw_delegation,
            (gateway, delegation, expected_total),
            drawn,
        ),
        sources@[0].kind == FundingSourceKind::OperatorStake ==> call_ensures(
            draw_operator_stake,
            (gateway, &ctx.payer, ctx.settings.min_operator_stake, expected_total),
            staked,
        ),
        sources@[0].kind == FundingSourceKind::Withdrawal ==> *old(withdrawal) == vault_in(
            ctx.accounts@,
            ctx.remaining@,
            0,
        ) && call_ensures(
            draw_withdrawal,
            (
                &ctx.accounts@[ctx.remaining@[0] as int].key,
                &ctx.accounts@[ctx.remaining@[0] as int].key,
                withdrawal,
                expected_total,
            ),
            withdrawn,
        ),
        call_ensures(pay_from_funding_plan, (ctx, sources, expected_total, residue_vault_count, now), r),
    ensures
        sources@[0].kind == FundingSourceKind::Balance ==> {
            &&& r is Ok <==> residue_vault_count == 0 && ctx.remaining@.len() == 0
            &&& r matches Ok(o) ==> o.accounts.accounts@ == ctx.accounts@
        },
        sources@[0].kind == FundingSourceKind::Delegation ==> {
            &&& drawn matches Err(e) ==> r == Err::<Outcome<PayFromFundingPlan, Vec<FundingEvent>>, Refusal>(
                Refusal::Gar(e),
            )
            &&& r matches Ok(o) ==> {
                let after = o.accounts.accounts@;
                &&& drawn is Ok
                &&& residue_vault_count == if drawn->Ok_0 > 0 {
                    1int
                } else {
                    0
                }
                &&& after[ctx.remaining@[0] as int].data == AccountData::Gateway(*final(gateway))
                &&& after[ctx.remaining@[1] as int].data == AccountData::Delegation(*final(delegation))
                &&& drawn->Ok_0 > 0 ==> vault_in(after, ctx.remaining@, 2).amount == drawn->Ok_0 && vault_in(
                    after,
                    ctx.remaining@,
                    2,
                ).gateway == old(gateway).operator
                &&& forall|i: int|
                    0 <= i < ctx.accounts@.len() && i != ctx.remaining@[0] && i != ctx.remaining@[1] && !(
                    ctx.accounts@[i].data is Empty) ==> #[trigger] after[i] == ctx.accounts@[i]
            }
            &&& drawn matches Ok(residue) ==> residue == 0 && residue_vault_count == 0 && ctx.remaining@.len() == 2
                ==> r is Ok
        },
        sources@[0].kind == FundingSourceKind::OperatorStake ==> {
            &&& staked matches Err(e) ==> r == Err::<Outcome<PayFromFundingPlan, Vec<FundingEvent>>, Refusal>(
                Refusal::Gar(e),
            )
            &&& staked is Ok ==> (r is Ok <==> residue_vault_count == 0 && ctx.remaining@.len() == 1)
            &&& r matches Ok(o) ==> o.accounts.accounts@ == ctx.accounts@.update(
                ctx.remaining@[0] as int,
                FundingAccount {
                    data: AccountData::Gateway(*final(gateway)),
                    ..ctx.accounts@[ctx.remaining@[0] as int]
                },
            )
        },
        sources@[0].kind == FundingSourceKind::Withdrawal ==> {
            &&& withdrawn matches Err(e) ==> r == Err::<Outcome<PayFromFundingPlan, Vec<FundingEvent>>, Refusal>(
                Refusal::Gar(e),
            )
            &&& withdrawn is Ok ==> (r is Ok <==> residue_vault_count == 0 && ctx.remaining@.len() == 1)
            &&& r matches Ok(o) ==> o.accounts.accounts@ == ctx.accounts@.update(
                ctx.remaining@[0] as int,
                FundingAccount {
                    data: AccountData::Withdrawal(*final(withdrawal)),
                    ..ctx.accounts@[ctx.remaining@[0] as int]
                },
            )
            &&& r matches Ok(o) ==> (o.event@[0] matches FundingEvent::Withdrawal(e) && e.residue
                == final(withdrawal).amount)
        },
{
    reveal_with_fuel(count_of, 2);
    reveal_with_fuel(total_of, 2);
    reveal_with_fuel(amounts_refusal, 2);
    reveal_with_fuel(after_sources, 2);
    reveal_with_fuel(after_residues, 2);
    reveal_with_fuel(residue_total, 2);
    reveal_with_fuel(sum_of, 2);
    let env = plan_env(ctx, now);
    let start = no_draws(ctx.accounts@);
    let first = after_source(env, start, sources@[0]);
    assert(after_sources(env, start, sources@, 0) == first);
    if first is Ok {
        let st = first->Ok_0;
        let vaults = VaultState {
            accounts: st.accounts,
            next: st.next,
            counter: counter_in_use(ctx.withdrawal_counter, ctx.payer, ctx.withdrawal_counter_bump),
            events: st.events,
        };
        if r is Ok {
            lemma_residues_numbered(env, ctx.settings.withdrawal_period, vaults, st.residues, 0);
            lemma_residue_events(env, ctx.settings.withdrawal_period, vaults, st.residues, 0);
            if st.residues.len() > 0 {
                assert(holds_residue(
                    r->Ok_0.accounts.accounts@[ctx.remaining@[st.next + (0 - 0)] as int],
                    env,
                    ctx.settings.withdrawal_period,
                    ctx.withdrawal_counter.next_id + (0 - 0),
                    st.residues[0],
                ));
            }
        }
    }
}

/// What the accounts hold in all, as `part` counts it.
pub open spec fn held(accounts: Seq<FundingAccount>, part: spec_fn(AccountData) -> int) -> int {
    sum_of(accounts.len() as int, |k: int| part(accounts[k].data))
}

/// The operator stake in an account.
pub open spec fn operator_stake_in(data: AccountData) -> int {
    match data {
        AccountData::Gateway(g) => g.operator_stake as int,
        _ => 0,
    }
}

/// What lies in an account as a withdrawal.
pub open spec fn withdrawal_in(data: AccountData) -> int {
    match data {
        AccountData::Withdrawal(w) => w.amount as int,
        _ => 0,
    }
}

/// What lies in an account as a delegation.
pub open spec fn delegation_in(data: AccountData) -> int {
    match data {
        AccountData::Delegation(d) => d.amount as int,
        _ => 0,
    }
}

/// The stake that an account counts as delegated to a gateway.
pub open spec fn delegated_stake_in(data: AccountData) -> int {
    match data {
        AccountData::Gateway(g) => g.total_delegated_stake as int,
        _ => 0,
    }
}

/// No gateway among the accounts has had a reward for its delegates.
pub open spec fn unrewarded(accounts: Seq<FundingAccount>) -> bool {
    forall|k: int|
        0 <= k < accounts.len() ==> ((#[trigger] accounts[k]).data matches AccountData::Gateway(g)
            ==> g.cumulative_reward_per_token == 0)
}

proof fn lemma_held_update(
    accounts: Seq<FundingAccount>,
    at: int,
    account: FundingAccount,
    part: spec_fn(AccountData) -> int,
    n: int,
)
    requires
        0 <= at < accounts.len(),
        0 <= n <= accounts.len(),
    ensures
        sum_of(n, |k: int| part(accounts.update(at, account)[k].data)) == sum_of(
            n,
            |k: int| part(accounts[k].data),
        ) + if at < n {
            part(account.data) - part(accounts[at].data)
        } else {
            0
        },
    decreases n,
{
    if n > 0 {
        lemma_held_update(accounts, at, account, part, n - 1);
    }
}

proof fn lemma_all_held_update(accounts: Seq<FundingAccount>, at: int, account: FundingAccount)
    requires
        0 <= at < accounts.len(),
    ensures
        ({
            let after = accounts.update(at, account);
            let (new, old_data) = (account.data, accounts[at].data);
            &&& held(after, |d: AccountData| operator_stake_in(d)) == held(
                accounts,
                |d: AccountData| operator_stake_in(d),
            ) + operator_stake_in(new) - operator_stake_in(old_data)
            &&& held(after, |d: AccountData| withdrawal_in(d)) == held(accounts, |d: AccountData| withdrawal_in(d))
                + withdrawal_in(new) - withdrawal_in(old_data)
            &&& held(after, |d: AccountData| delegation_in(d)) == held(accounts, |d: AccountData| delegation_in(d))
                + delegation_in(new) - delegation_in(old_data)
            &&& held(after, |d: AccountData| delegated_stake_in(d)) == held(
                accounts,
                |d: AccountData| delegated_stake_in(d),
            ) + delegated_stake_in(new) - delegated_stake_in(old_data)
        }),
{
    let n = accounts.len() as int;
    lemma_held_update(accounts, at, account, |d: AccountData| operator_stake_in(d), n);
    lemma_held_update(accounts, at, account, |d: AccountData| withdrawal_in(d), n);
    lemma_held_update(accounts, at, account, |d: AccountData| delegation_in(d), n);
    lemma_held_update(accounts, at, account, |d: AccountData| delegated_stake_in(d), n);
}

proof fn lemma_source_takes_what_is_booked(env: PlanEnv, st: DrawState, source: FundingSourceSpec)
    requires
        0 <= st.next <= env.remaining@.len(),
        places_valid(env.remaining@, st.accounts),
        after_source(env, st, source) is Ok,
    ensures
        ({
            let next = after_source(env, st, source)->Ok_0;
            let residue = residue_total(next.residues, next.residues.len() as int) - residue_total(
                st.residues,
                st.residues.len() as int,
            );
            let drawn = next.delegated - st.delegated + residue;
            &&& next.accounts.len() == st.accounts.len()
            &&& 0 <= next.next <= env.remaining@.len()
            &&& held(next.accounts, |d: AccountData| operator_stake_in(d)) == held(
                st.accounts,
                |d: AccountData| operator_stake_in(d),
            ) - (next.staked - st.staked)
            &&& held(next.accounts, |d: AccountData| withdrawal_in(d)) == held(
                st.accounts,
                |d: AccountData| withdrawal_in(d),
            ) - (next.withdrawn - st.withdrawn)
            &&& held(next.accounts, |d: AccountData| delegation_in(d)) >= held(
                st.accounts,
                |d: AccountData| delegation_in(d),
            ) - drawn
            &&& held(next.accounts, |d: AccountData| delegated_stake_in(d)) >= held(
                st.accounts,
                |d: AccountData| delegated_stake_in(d),
            ) - drawn
            &&& unrewarded(st.accounts) ==> {
                &&& unrewarded(next.accounts)
                &&& held(next.accounts, |d: AccountData| delegation_in(d)) == held(
                    st.accounts,
                    |d: AccountData| delegation_in(d),
                ) - drawn
                &&& held(next.accounts, |d: AccountData| delegated_stake_in(d)) == held(
                    st.accounts,
                    |d: AccountData| delegated_stake_in(d),
                ) - drawn
            }
        }),
{
    let next = after_source(env, st, source)->Ok_0;
    let at = env.remaining@[st.next] as int;
    match source.kind {
        FundingSourceKind::Balance => {},
        FundingSourceKind::Delegation => {
            let di = env.remaining@[st.next + 1] as int;
            let g = st.accounts[at].data->Gateway_0;
            let d = st.accounts[di].data->Delegation_0;
            lemma_settled_gains(g, d);
            let middle = st.accounts.update(at, next.accounts[at]);
            assert(next.accounts =~= middle.update(di, next.accounts[di]));
            lemma_all_held_update(st.accounts, at, next.accounts[at]);
            lemma_all_held_update(middle, di, next.accounts[di]);
            if next.residues.len() > st.residues.len() {
                lemma_residue_push(st.residues, next.residues.last(), st.residues.len() as int);
            }
        },
        FundingSourceKind::OperatorStake => {
            assert(next.accounts =~= st.accounts.update(at, next.accounts[at]));
            lemma_all_held_update(st.accounts, at, next.accounts[at]);
        },
        FundingSourceKind::Withdrawal => {
            assert(next.accounts =~= st.accounts.update(at, next.accounts[at]));
            lemma_all_held_update(st.accounts, at, next.accounts[at]);
        },
    }
}

proof fn lemma_residue_push(residues: Seq<(Pubkey, u64)>, residue: (Pubkey, u64), n: int)
    requires
        0 <= n <= residues.len(),
    ensures
        residue_total(residues.push(residue), n) == residue_total(residues, n),
        residue_total(residues.push(residue), residues.len() as int + 1) == residue_total(
            residues.push(residue),
            residues.len() as int,
        ) + residue.1,
    decreases n,
{
    if n > 0 {
        lemma_residue_push(residues, residue, n - 1);
    }
}

proof fn lemma_sources_take_what_is_booked(env: PlanEnv, st: DrawState, sources: Seq<FundingSourceSpec>, i: int)
    requires
        0 <= i <= sources.len(),
        0 <= st.next <= env.remaining@.len(),
        places_valid(env.remaining@, st.accounts),
        after_sources(env, st, sources, i) is Ok,
    ensures
        ({
            let end = after_sources(env, st, sources, i)->Ok_0;
            let residue = residue_total(end.residues, end.residues.len() as int) - residue_total(
                st.residues,
                st.residues.len() as int,
            );
            let drawn = end.delegated - st.delegated + residue;
            &&& end.accounts.len() == st.accounts.len()
            &&& 0 <= end.next <= env.remaining@.len()
            &&& held(end.accounts, |d: AccountData| operator_stake_in(d)) == held(
                st.accounts,
                |d: AccountData| operator_stake_in(d),
            ) - (end.staked - st.staked)
            &&& held(end.accounts, |d: AccountData| withdrawal_in(d)) == held(
                st.accounts,
                |d: AccountData| withdrawal_in(d),
            ) - (end.withdrawn - st.withdrawn)
            &&& held(end.accounts, |d: AccountData| delegation_in(d)) >= held(
                st.accounts,
                |d: AccountData| delegation_in(d),
            ) - drawn
            &&& held(end.accounts, |d: AccountData| delegated_stake_in(d)) >= held(
                st.accounts,
                |d: AccountData| delegated_stake_in(d),
            ) - drawn
            &&& unrewarded(st.accounts) ==> {
                &&& held(end.accounts, |d: AccountData| delegation_in(d)) == held(
                    st.accounts,
                    |d: AccountData| delegation_in(d),
                ) - drawn
                &&& held(end.accounts, |d: AccountData| delegated_stake_in(d)) == held(
                    st.accounts,
                    |d: AccountData| delegated_stake_in(d),
                ) - drawn
            }
        }),
    decreases sources.len() - i,
{
    if i < sources.len() {
        lemma_source_takes_what_is_booked(env, st, sources[i]);
        lemma_sources_take_what_is_booked(env, after_source(env, st, sources[i])->Ok_0, sources, i + 1);
    }
}

proof fn lemma_vaults_hold_the_residues(
    env: PlanEnv,
    withdrawal_period: i64,
    st: VaultState,
    residues: Seq<(Pubkey, u64)>,
    i: int,
)
    requires
        0 <= i <= residues.len(),
        0 <= st.next <= env.remaining@.len(),
        places_valid(env.remaining@, st.accounts),
        after_residues(env, withdrawal_period, st, residues, i) is Ok,
    ensures
        ({
            let end = after_residues(env, withdrawal_period, st, residues, i)->Ok_0;
            &&& held(end.accounts, |d: AccountData| operator_stake_in(d)) == held(
                st.accounts,
                |d: AccountData| operator_stake_in(d),
            )
            &&& held(end.accounts, |d: AccountData| withdrawal_in(d)) == held(
                st.accounts,
                |d: AccountData| withdrawal_in(d),
            ) + residue_total(residues, residues.len() as int) - residue_total(residues, i)
            &&& held(end.accounts, |d: AccountData| delegation_in(d)) == held(
                st.accounts,
                |d: AccountData| delegation_in(d),
            )
            &&& held(end.accounts, |d: AccountData| delegated_stake_in(d)) == held(
                st.accounts,
                |d: AccountData| delegated_stake_in(d),
            )
        }),
    decreases residues.len() - i,
{
    if i < residues.len() {
        let next = after_residue(env, withdrawal_period, st, residues[i])->Ok_0;
        let at = env.remaining@[st.next] as int;
        assert(next.accounts =~= st.accounts.update(at, next.accounts[at]));
        lemma_all_held_update(st.accounts, at, next.accounts[at]);
        lemma_vaults_hold_the_residues(env, withdrawal_period, next, residues, i + 1);
        assert(residue_total(residues, i + 1) == residue_total(residues, i) + residues[i].1);
    }
}

/// However many sources a plan has, the accounts fall by what their sources say: operator
/// stakes by what is drawn on them, and withdrawals by what is drawn on them less the
/// residues that they take in. Delegations and the gateways' counts of them fall by what is
/// drawn and the residues; rewards that are settled on the way can only make up for it, and
/// without any they fall by exactly that.
pub proof fn plan_takes_what_its_sources_say_off_the_accounts(
    ctx: PayFromFundingPlan,
    sources: Vec<FundingSourceSpec>,
    expected_total: u64,
    residue_vault_count: u8,
    now: i64,
    o: Outcome<PayFromFundingPlan, Vec<FundingEvent>>,
)
    requires
        places_valid(ctx.remaining@, ctx.accounts@),
        call_ensures(
            pay_from_funding_plan,
            (ctx, sources, expected_total, residue_vault_count, now),
            Ok::<_, Refusal>(o),
        ),
    ensures
        ({
            let n = sources@.len() as int;
            let (before, after) = (ctx.accounts@, o.accounts.accounts@);
            let residue = sum_of(
                residue_vault_count as int,
                |j: int| vault_in(after, ctx.remaining@, accounts_taken(sources@, n) + j).amount as int,
            );
            let drawn = drawn_on(sources@, FundingSourceKind::Delegation, n) + residue;
            &&& held(after, |d: AccountData| operator_stake_in(d)) + drawn_on(
                sources@,
                FundingSourceKind::OperatorStake,
                n,
            ) == held(before, |d: AccountData| operator_stake_in(d))
            &&& held(after, |d: AccountData| withdrawal_in(d)) + drawn_on(sources@, FundingSourceKind::Withdrawal, n)
                == held(before, |d: AccountData| withdrawal_in(d)) + residue
            &&& held(after, |d: AccountData| delegation_in(d)) + drawn >= held(
                before,
                |d: AccountData| delegation_in(d),
            )
            &&& held(after, |d: AccountData| delegated_stake_in(d)) + drawn >= held(
                before,
                |d: AccountData| delegated_stake_in(d),
            )
            &&& unrewarded(before) ==> {
                &&& held(after, |d: AccountData| delegation_in(d)) + drawn == held(
                    before,
                    |d: AccountData| delegation_in(d),
                )
                &&& held(after, |d: AccountData| delegated_stake_in(d)) + drawn == held(
                    before,
                    |d: AccountData| delegated_stake_in(d),
                )
            }
        }),
{
    let env = plan_env(ctx, now);
    let start = no_draws(ctx.accounts@);
    let st = after_sources(env, start, sources@, 0)->Ok_0;
    lemma_sources_add_up(env, start, sources@, 0, ctx.accounts@);
    lemma_sources_take_what_is_booked(env, start, sources@, 0);
    lemma_plan_parts(ctx, sources@, expected_total, residue_vault_count, now);
    let vaults = VaultState {
        accounts: st.accounts,
        next: st.next,
        counter: counter_in_use(ctx.withdrawal_counter, ctx.payer, ctx.withdrawal_counter_bump),
        events: st.events,
    };
    lemma_vaults_hold_the_residues(env, ctx.settings.withdrawal_period, vaults, st.residues, 0);
}

} // verus!
