//! The account records. `SIZE` counts the eight bytes of the discriminator and
//! the fields up to and with `bump`; the three bytes of the schema version
//! follow behind.

use vstd::prelude::*;
use crate::arith::{is_part, lemma_quotient_is_part};
use crate::pubkey::Pubkey;
use crate::state::weights::GatewayWeights;

verus! {

/// The layout version of an account. All zero for an account that was written
/// before accounts carried a version.
#[derive(Clone, Copy, Debug, PartialEq, Eq, Structural)]
pub struct SchemaVersion {
    pub major: u8,
    pub minor: u8,
    pub patch: u8,
}

impl SchemaVersion {
    pub fn new(major: u8, minor: u8, patch: u8) -> (r: SchemaVersion)
        ensures
            r == (SchemaVersion { major, minor, patch }),
    {
        SchemaVersion { major, minor, patch }
    }

    /// Versions are ordered by major, then minor, then patch number.
    pub open spec fn older_than(self, other: SchemaVersion) -> bool {
        ||| self.major < other.major
        ||| self.major == other.major && self.minor < other.minor
        ||| self.major == other.major && self.minor == other.minor && self.patch < other.patch
    }

    pub fn is_older_than(&self, other: &SchemaVersion) -> (r: bool)
        ensures
            r == self.older_than(*other),
    {
        self.major < other.major || (self.major == other.major && (self.minor < other.minor || (
        self.minor == other.minor && self.patch < other.patch)))
    }
}

/// Global settings of the gateway registry.
#[derive(Clone, Copy, Debug)]
pub struct GatewaySettings {
    pub authority: Pubkey,
    pub mint: Pubkey,
    pub min_operator_stake: u64,
    pub min_delegate_stake: u64,
    pub withdrawal_period: i64,
    pub max_expedited_withdrawal_penalty: u64,
    pub min_expedited_withdrawal_penalty: u64,
    pub min_expedited_withdrawal_amount: u64,
    pub max_delegates_per_gateway: u32,
    /// Whether accounts may still be imported; `finalize_migration` clears it
    /// for good.
    pub migration_active: bool,
    /// The key that may import accounts.
    pub migration_authority: Pubkey,
    /// The one token account that holds all stake.
    pub stake_token_account: Pubkey,
    /// The one token account of the protocol treasury.
    pub protocol_token_account: Pubkey,
    /// The program that owns the name registry read by `prescribe_epoch`.
    pub arns_program_id: Pubkey,
    /// Supply counters, moved along with every change of stake: of what operators
    /// have staked,
    pub total_staked: u64,
    /// of what delegators have staked,
    pub total_delegated: u64,
    /// and of what is locked in withdrawals.
    pub total_withdrawn: u64,
    pub bump: u8,
    pub version: SchemaVersion,
}

impl GatewaySettings {
    pub const SIZE: usize = 8 + 32 + 32 + 8 + 8 + 8 + 8 + 8 + 8 + 4 + 1 + 32 + 32 + 32 + 32 + 8 + 8
        + 8 + 1;
}

/// An entry of the gateway registry: the operator's address with as much of the
/// gateway as the epoch instructions need without reading the gateway itself.
#[derive(Clone, Copy, Debug)]
pub struct GatewaySlot {
    pub address: Pubkey,
    pub composite_weight: u64,
    pub start_timestamp: i64,
    /// One of the `STATUS_*` constants.
    pub status: u8,
    /// One if the gateway carried delegated stake when its weight was tallied.
    pub delegated_at_tally: u8,
    pub _padding: [u8; 6],
}

impl GatewaySlot {
    pub const STATUS_JOINED: u8 = 0;

    pub const STATUS_LEAVING: u8 = 1;

    pub const STATUS_GONE: u8 = 2;

    /// A slot that is not in use.
    pub open spec fn is_blank(self) -> bool {
        &&& self.address == Pubkey::zero()
        &&& self.composite_weight == 0
        &&& self.start_timestamp == 0
        &&& self.status == Self::STATUS_JOINED
        &&& self.delegated_at_tally == 0
        &&& self._padding@ == Seq::new(6, |i: int| 0u8)
    }

    /// The slot of a gateway that has just joined.
    pub open spec fn is_fresh(self, address: Pubkey, start_timestamp: i64, status: u8) -> bool {
        &&& self.address == address
        &&& self.composite_weight == 0
        &&& self.start_timestamp == start_timestamp
        &&& self.status == status
        &&& self.delegated_at_tally == 0
        &&& self._padding@ == Seq::new(6, |i: int| 0u8)
    }

    /// A slot for a gateway whose weight has not been tallied yet.
    pub fn fresh(address: Pubkey, start_timestamp: i64, status: u8) -> (r: GatewaySlot)
        ensures
            r.is_fresh(address, start_timestamp, status),
    {
        let r = GatewaySlot {
            address,
            composite_weight: 0,
            start_timestamp,
            status,
            delegated_at_tally: 0,
            _padding: [0u8; 6],
        };
        assert(r._padding@ =~= Seq::new(6, |i: int| 0u8));
        r
    }
}

/// The global gateway registry. The first `count` slots are in use.
#[derive(Clone, Debug)]
pub struct GatewayRegistry {
    /// Kept for the layout of the account; nothing reads it.
    pub authority: Pubkey,
    pub count: u32,
    pub _padding: [u8; 4],
    pub gateways: Vec<GatewaySlot>,
}

impl GatewayRegistry {
    pub const SIZE: usize = 32 + 4 + 4 + (56 * 3000);

    pub const MAX_GATEWAYS: usize = 3000;

    /// The account always has all its slots, and no more of them are in use than
    /// there are.
    pub open spec fn wf(self) -> bool {
        &&& self.gateways@.len() == Self::MAX_GATEWAYS
        &&& self.count <= Self::MAX_GATEWAYS
    }

    /// The slots in use.
    pub open spec fn active(self) -> Seq<GatewaySlot> {
        self.gateways@.take(self.count as int)
    }
}

/// A gateway.
#[derive(Clone, Debug)]
pub struct Gateway {
    pub operator: Pubkey,
    pub label: String,
    pub fqdn: String,
    pub port: u16,
    pub protocol: Protocol,
    pub properties: String,
    pub note: String,
    pub operator_stake: u64,
    pub total_delegated_stake: u64,
    pub status: GatewayStatus,
    pub start_timestamp: i64,
    pub leave_timestamp: Option<i64>,
    /// The length of an epoch at the time the gateway left; zero while it is
    /// joined. `finalize_gone` reckons with the longer of this and the current
    /// length.
    pub leave_epoch_duration: i64,
    pub stats: GatewayStats,
    pub weights: GatewayWeights,
    pub settings: GatewaySettings2,
    pub registry_index: RegistryIndex,
    /// The address that submits observations for this gateway.
    pub observer_address: Pubkey,
    /// Reward per unit of delegated stake since the gateway joined, scaled by
    /// `REWARD_PRECISION`.
    pub cumulative_reward_per_token: u128,
    pub bump: u8,
    pub version: SchemaVersion,
}

impl Gateway {
    pub const SIZE: usize = 8 + 32 + (4 + 64) + (4 + 128) + 2 + 1 + (4 + 256) + (4 + 256) + 8 + 8
        + 1 + 8 + 9 + 8 + 22 + 56 + 12 + 5 + 32 + 16 + 1;

    /// The stake needed to join: 20,000 ARIO.
    pub const MIN_OPERATOR_STAKE: u64 = 20_000_000_000;

    /// Operator stake and delegated stake together.
    pub fn total_stake(&self) -> (r: u64)
        ensures
            r == crate::arith::cap_u64(self.operator_stake + self.total_delegated_stake),
    {
        self.operator_stake.saturating_add(self.total_delegated_stake)
    }
}

#[derive(Clone, Copy, Debug, PartialEq, Eq, Structural)]
pub enum Protocol {
    Http,
    Https,
}

#[derive(Clone, Copy, Debug, PartialEq, Eq, Structural)]
pub enum GatewayStatus {
    Joined,
    Leaving,
    /// The last state: the gateway's account is closed along with it.
    Gone,
}

#[derive(Clone, Copy, Debug, PartialEq, Eq, Structural)]
pub struct GatewayStats {
    pub passed_epochs: u32,
    pub failed_epochs: u32,
    pub total_epochs: u32,
    pub prescribed_epochs: u32,
    pub observed_epochs: u32,
    pub failed_consecutive: u8,
    pub passed_consecutive: u8,
}

impl GatewayStats {
    pub const SIZE: usize = 4 + 4 + 4 + 4 + 4 + 1 + 1;

    pub open spec fn zero() -> GatewayStats {
        GatewayStats {
            passed_epochs: 0,
            failed_epochs: 0,
            total_epochs: 0,
            prescribed_epochs: 0,
            observed_epochs: 0,
            failed_consecutive: 0,
            passed_consecutive: 0,
        }
    }
}

impl Default for GatewayStats {
    fn default() -> (r: GatewayStats)
        ensures
            r == GatewayStats::zero(),
    {
        GatewayStats {
            passed_epochs: 0,
            failed_epochs: 0,
            total_epochs: 0,
            prescribed_epochs: 0,
            observed_epochs: 0,
            failed_consecutive: 0,
            passed_consecutive: 0,
        }
    }
}

/// The settings of one gateway.
#[derive(Clone, Copy, Debug, PartialEq, Eq, Structural)]
pub struct GatewaySettings2 {
    pub allow_delegated_staking: bool,
    /// Delegates' share of the gateway's rewards, in basis points.
    pub delegate_reward_share_ratio: u16,
    pub min_delegation_amount: u64,
    /// If set, only allowlisted delegates, and those that have stake already,
    /// may delegate.
    pub allowlist_enabled: bool,
}

impl GatewaySettings2 {
    pub const SIZE: usize = 1 + 2 + 8 + 1;
}

/// The place of a gateway in the registry.
#[derive(Clone, Copy, Debug, PartialEq, Eq, Structural)]
pub struct RegistryIndex {
    pub index: u32,
    /// Kept for the layout of the account; nothing reads it.
    pub _reserved: u8,
}

impl RegistryIndex {
    pub const SIZE: usize = 4 + 1;
}

impl Default for RegistryIndex {
    fn default() -> (r: RegistryIndex)
        ensures
            r == (RegistryIndex { index: 0, _reserved: 0 }),
    {
        RegistryIndex { index: 0, _reserved: 0 }
    }
}

/// Stake that a delegator has placed with a gateway.
#[derive(Clone, Copy, Debug)]
pub struct Delegation {
    pub gateway: Pubkey,
    pub delegator: Pubkey,
    pub amount: u64,
    pub start_timestamp: i64,
    /// The gateway's `cumulative_reward_per_token` when rewards were last
    /// settled.
    pub reward_debt: u128,
    pub bump: u8,
    pub version: SchemaVersion,
}

impl Delegation {
    pub const SIZE: usize = 8 + 32 + 32 + 8 + 8 + 16 + 1;
}

/// The number of the next withdrawal of an owner.
#[derive(Clone, Copy, Debug)]
pub struct WithdrawalCounter {
    pub owner: Pubkey,
    pub next_id: u64,
    pub bump: u8,
    pub version: SchemaVersion,
}

impl WithdrawalCounter {
    pub const SIZE: usize = 8 + 32 + 8 + 1;
}

/// Stake on its way out, locked until `available_at`.
#[derive(Clone, Copy, Debug)]
pub struct Withdrawal {
    pub owner: Pubkey,
    pub withdrawal_id: u64,
    pub gateway: Pubkey,
    pub amount: u64,
    pub created_at: i64,
    pub available_at: i64,
    pub is_delegate: bool,
    /// Set on what `leave_network` and `prune_gateway` create. It gates nothing.
    pub is_exit_vault: bool,
    /// Set on the vault that holds the minimum stake of a gateway that left: it
    /// can neither be expedited nor spent, only claimed once its lock is over.
    pub is_protected: bool,
    pub bump: u8,
    pub version: SchemaVersion,
}

impl Withdrawal {
    pub const SIZE: usize = 8 + 32 + 8 + 32 + 8 + 8 + 8 + 1 + 1 + 1 + 1;
}

/// Leave for a delegate to stake with a gateway that keeps an allowlist.
#[derive(Clone, Copy, Debug)]
pub struct AllowlistEntry {
    pub gateway: Pubkey,
    pub delegate: Pubkey,
    pub added_at: i64,
    pub bump: u8,
    pub version: SchemaVersion,
}

impl AllowlistEntry {
    pub const SIZE: usize = 8 + 32 + 32 + 8 + 1;
}

/// Index from an observer's address to its gateway: no two gateways share an
/// observer.
#[derive(Clone, Copy, Debug)]
pub struct ObserverLookup {
    pub gateway: Pubkey,
    pub bump: u8,
    pub version: SchemaVersion,
}

impl ObserverLookup {
    pub const SIZE: usize = 8 + 32 + 1;
}

/// How often a delegator has moved stake lately; sets the redelegation fee.
#[derive(Clone, Copy, Debug)]
pub struct RedelegationRecord {
    pub delegator: Pubkey,
    /// Redelegations since the fee was last reset.
    pub redelegation_count: u32,
    pub last_redelegation_at: i64,
    /// When the fee falls back to nothing.
    pub fee_reset_at: i64,
    pub bump: u8,
    pub version: SchemaVersion,
}

impl RedelegationRecord {
    pub const SIZE: usize = 8 + 32 + 4 + 8 + 8 + 1;

    /// Seven days.
    pub const FEE_RESET_INTERVAL: i64 = 7 * 86_400;

    /// The count that the fee goes by: nothing once the reset time has come.
    pub open spec fn effective_count(self, now: i64) -> int {
        if now >= self.fee_reset_at {
            0
        } else {
            self.redelegation_count as int
        }
    }

    /// Ten percent per redelegation, at most sixty.
    pub open spec fn fee_rate(self, now: i64, rate_scale: u64) -> int {
        crate::arith::lesser(10 * self.effective_count(now), 60) * rate_scale / 100
    }

    /// The redelegation fee at `current_timestamp`, scaled by `rate_scale`: ten
    /// percent for each redelegation since the last reset, at most sixty.
    pub fn get_fee_rate(&self, current_timestamp: i64, rate_scale: u64) -> (r: u64)
        requires
            10 * self.effective_count(current_timestamp) <= u32::MAX,
            crate::arith::lesser(10 * self.effective_count(current_timestamp), 60) * rate_scale <= u64::MAX,
        ensures
            r == self.fee_rate(current_timestamp, rate_scale),
    {
        let count: u32 = if current_timestamp >= self.fee_reset_at {
            0
        } else {
            self.redelegation_count
        };
        let tenths: u32 = 10 * count;
        let pct: u64 = if tenths < 60 {
            tenths as u64
        } else {
            60
        };
        proof {
            let p: int = pct as int;
            let s: int = rate_scale as int;
            assert(0 <= p * s) by (nonlinear_arith)
                requires
                    0 <= p,
                    0 <= s,
            ;
        }
        pct * rate_scale / 100
    }
}

/// Global settings of the epochs.
#[derive(Clone, Copy, Debug)]
pub struct EpochSettings {
    pub authority: Pubkey,
    /// Length of an epoch in seconds.
    pub epoch_duration: i64,
    /// How many observers are prescribed per epoch.
    pub prescribed_observer_count: u8,
    /// How many names are prescribed per epoch.
    pub prescribed_name_count: u8,
    pub min_observer_stake: u64,
    /// Share of the stake slashed for failed observations, scaled by 10000.
    pub slash_rate: u16,
    pub enabled: bool,
    /// The number of the next epoch to be created.
    pub current_epoch_index: u64,
    /// When epoch zero starts.
    pub genesis_timestamp: i64,
    pub tenure_weight_duration: i64,
    pub max_tenure_weight: u64,
    pub gateway_reward_ratio: u64,
    pub observer_reward_ratio: u64,
    pub missed_observation_penalty_rate: u64,
    pub max_reward_rate: u64,
    pub min_reward_rate: u64,
    pub reward_decay_start_epoch: u64,
    pub reward_decay_last_epoch: u64,
    /// Failed epochs in a row after which a gateway may be pruned.
    pub max_consecutive_failures: u8,
    pub failed_gateway_slash_rate: u64,
    /// When epochs will be disabled; zero if they will not be.
    pub disable_at: i64,
    pub bump: u8,
    pub version: SchemaVersion,
}

impl EpochSettings {
    pub const SIZE: usize = 8 + 32 + 8 + 1 + 1 + 8 + 2 + 1 + 8 + 8 + 8 + 8 + 8 + 8 + 8 + 8 + 8 + 8
        + 8 + 1 + 8 + 8 + 1;

    /// Epochs are disabled seven days after the authority asks for it.
    pub const EPOCH_DISABLE_DELAY: i64 = 7 * 24 * 60 * 60;
}

/// The report of a prescribed observer.
#[derive(Clone, Copy, Debug)]
pub struct Observation {
    pub epoch_index: u64,
    pub observer: Pubkey,
    /// One bit per gateway, lowest bit first: set if it passed.
    pub gateway_results: [u8; 375],
    pub gateway_count: u16,
    /// The transaction that holds the report.
    pub report_tx_id: [u8; 32],
    pub submitted_at: i64,
    pub bump: u8,
    pub version: SchemaVersion,
}

impl Observation {
    pub const SIZE: usize = 8 + 8 + 32 + 375 + 2 + 32 + 8 + 1;
}

/// The redelegation fee is nothing once it has been reset, and otherwise ten percent
/// for each redelegation since, sixty at most.
pub proof fn fee_rate_follows_the_count(record: RedelegationRecord, now: i64, scale: u64, r: u64)
    requires
        call_ensures(RedelegationRecord::get_fee_rate, (&record, now, scale), r),
    ensures
        now >= record.fee_reset_at ==> r == 0,
        now < record.fee_reset_at && record.redelegation_count <= 6 ==> is_part(
            r as int,
            scale as int,
            record.redelegation_count as int,
            10,
        ),
        now < record.fee_reset_at && record.redelegation_count >= 6 ==> is_part(r as int, scale as int, 6, 10),
{
    let s: int = scale as int;
    assert(0 * s == 0);
    if now < record.fee_reset_at {
        let n: int = if record.redelegation_count <= 6 {
            record.redelegation_count as int
        } else {
            6
        };
        lemma_quotient_is_part(s, n, 10);
        assert((10 * n) * s == 10 * (s * n)) by (nonlinear_arith);
        assert(crate::arith::lesser(10 * record.effective_count(now), 60) == 10 * n);
    }
}

/// A version is older than another by its first number that differs.
pub proof fn versions_are_ordered(a: SchemaVersion, b: SchemaVersion, r: bool, back: bool)
    requires
        call_ensures(SchemaVersion::is_older_than, (&a, &b), r),
        call_ensures(SchemaVersion::is_older_than, (&b, &a), back),
    ensures
        r <==> 65_536 * a.major + 256 * a.minor + a.patch < 65_536 * b.major + 256 * b.minor + b.patch,
        !(r && back),
        !r && !back <==> a == b,
{
}

/// The total stake of a gateway is what its operator and its delegates have staked.
pub proof fn total_stake_adds_up(gateway: Gateway, r: u64)
    requires
        call_ensures(Gateway::total_stake, (&gateway,), r),
    ensures
        gateway.operator_stake + gateway.total_delegated_stake <= u64::MAX ==> r == gateway.operator_stake
            + gateway.total_delegated_stake,
        gateway.operator_stake + gateway.total_delegated_stake > u64::MAX ==> r == u64::MAX,
{
}

} // verus!
