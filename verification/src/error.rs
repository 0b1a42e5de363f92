//! The ways in which an instruction is refused.

use vstd::prelude::*;

verus! {

/// Why an instruction was refused. The position of a variant is its wire code,
/// so the order is append-only.
#[derive(Clone, Copy, Debug, PartialEq, Eq, Structural)]
pub enum GarError {
    /// Gateway already registered.
    GatewayAlreadyRegistered,
    /// Gateway not found.
    GatewayNotFound,
    /// Gateway is not in joined status.
    GatewayNotJoined,
    /// Gateway is in leaving state.
    GatewayLeaving,
    /// Gateway registry is full.
    RegistryFull,
    /// Gateway registry account already exists.
    GatewayRegistryAlreadyExists,
    /// Invalid FQDN format.
    InvalidFqdn,
    /// Invalid gateway label.
    InvalidLabel,
    /// Invalid reward share ratio - must be 0-95.
    InvalidRewardShare,
    /// Insufficient stake amount.
    InsufficientStake,
    /// Stake below minimum required.
    StakeBelowMinimum,
    /// Must leave network before withdrawing all stake.
    MustLeaveFirst,
    /// Invalid amount.
    InvalidAmount,
    /// Delegation not allowed for this gateway.
    DelegationNotAllowed,
    /// Delegation amount below gateway minimum.
    DelegationBelowMinimum,
    /// Delegate not in allowlist.
    DelegateNotAllowed,
    /// Delegation not found.
    DelegationNotFound,
    /// Delegate not eligible for reward distribution.
    InvalidDelegateStatus,
    /// Cannot redelegate to same gateway.
    RedelegateSameGateway,
    /// Cannot delegate to your own gateway - use increase_operator_stake instead.
    CannotDelegateToSelf,
    /// Withdrawal not ready - lock period not elapsed.
    WithdrawalNotReady,
    /// Withdrawal not found.
    WithdrawalNotFound,
    /// Invalid withdrawal amount.
    InvalidWithdrawalAmount,
    /// Exit vault withdrawals cannot be expedited.
    ExitVaultCannotBeExpedited,
    /// Not the gateway operator.
    NotOperator,
    /// Not the delegator.
    NotDelegator,
    /// Invalid owner.
    InvalidOwner,
    /// Unauthorized access.
    Unauthorized,
    /// Arithmetic overflow.
    ArithmeticOverflow,
    /// Arithmetic underflow.
    ArithmeticUnderflow,
    /// Invalid parameter.
    InvalidParameter,
    /// Epochs not enabled.
    EpochsNotEnabled,
    /// Epochs are already enabled - cannot mutate counter while cranker is live.
    EpochsAlreadyEnabled,
    /// Epoch counter has already advanced past zero - admin_set_current_epoch_index is one-shot.
    EpochCounterAlreadyAdvanced,
    /// Epoch not started yet.
    EpochNotStarted,
    /// Epoch has ended.
    EpochEnded,
    /// Epoch still in progress.
    EpochInProgress,
    /// Not a prescribed observer for this epoch.
    NotPrescribedObserver,
    /// Observer has already submitted observations.
    AlreadyObserved,
    /// Rewards already distributed.
    RewardsAlreadyDistributed,
    /// Reward distribution not complete.
    DistributionIncomplete,
    /// Invalid observation report.
    InvalidObservation,
    /// Gateway not eligible for epoch.
    GatewayNotEligible,
    /// Epoch already exists.
    EpochAlreadyExists,
    /// No more observers available to prescribe.
    NoObserversAvailable,
    /// No names available to prescribe.
    NoNamesAvailable,
    /// Invalid epoch index.
    InvalidEpochIndex,
    /// Composite weights have already been tallied for this epoch.
    WeightsAlreadyTallied,
    /// Composite weights have not been tallied yet.
    WeightsNotTallied,
    /// Invalid gateway account.
    InvalidGatewayAccount,
    /// Epoch prescriptions not yet complete.
    PrescriptionsNotDone,
    /// Epoch prescriptions already complete.
    PrescriptionsAlreadyDone,
    /// Invalid name registry account.
    InvalidNameRegistry,
    /// Epoch not yet closeable - must be distributed and past retention.
    EpochNotCloseable,
    /// Migration is not active.
    MigrationInactive,
    /// Migration has already been finalized.
    MigrationAlreadyFinalized,
    /// Invalid account data for migration import.
    InvalidAccountData,
    /// PDA derivation does not match target account.
    InvalidPda,
    /// Observer address already in use by another gateway.
    ObserverAddressTaken,
    /// Migration deadline has passed.
    MigrationExpired,
    /// Insufficient delegation for payment.
    InsufficientDelegationForPayment,
    /// Insufficient operator stake for payment.
    InsufficientOperatorStakeForPayment,
    /// Insufficient withdrawal balance for payment.
    InsufficientWithdrawalForPayment,
    /// Withdrawal vault still holds funds - cannot close.
    WithdrawalNotDrained,
    /// Funding plan is empty.
    EmptyFundingPlan,
    /// Funding plan exceeds the per-tx source cap.
    TooManyFundingSources,
    /// Sum of source amounts does not match the expected total.
    FundingPlanAmountMismatch,
    /// Funding plan source has zero amount.
    ZeroFundingSourceAmount,
    /// Delegation/OperatorStake source requires the gateway account.
    MissingGatewayForFundingSource,
    /// Balance source requires the payer's token account.
    MissingPayerTokenAccountForFundingSource,
    /// Funding plan declared more sources than were passed in remaining_accounts.
    MissingFundingSourceAccount,
    /// remaining_accounts contained more entries than the funding plan declared.
    ExtraneousFundingSourceAccount,
    /// Funding plan may include at most one Delegation source per gateway.
    OnlyOneDelegationSource,
    /// Funding plan may include at most one OperatorStake source.
    OnlyOneOperatorStakeSource,
    /// Funding plan exceeds the per-tx Delegation source cap.
    TooManyDelegationSources,
    /// Two or more sources reference the same gateway - aggregate them client-side.
    DuplicateGatewayInSources,
    /// residue_vault_count does not match the number of sub-min Delegation residues.
    MismatchedResidueVaultCount,
    /// Missing residue_vault slot in remaining_accounts.
    MissingResidueVault,
    /// finalize_gone: gateway is not in Leaving status.
    GatewayNotLeaving,
    /// finalize_gone: leave window has not yet expired.
    LeaveWindowNotExpired,
    /// finalize_gone: outstanding delegations must be claimed first.
    DelegationsOutstanding,
    /// close_epoch: observation PDAs must be closed first.
    EpochObservationsNotClosed,
    /// Vault is protected (operator min-stake exit vault); cannot be expedited or spent. Use claim_withdrawal after the lock expires.
    ProtectedVault,
    /// leave_network/prune_gateway: post-min stake is positive but excess_withdrawal account was not supplied.
    MissingExcessWithdrawal,
    /// Supplied excess_withdrawal PDA does not match the expected derivation (must be ['withdrawal', operator, withdrawal_counter.next_id + 1]).
    InvalidExcessWithdrawalPda,
    /// Reserved (formerly RegistryAlreadyShrunk).
    RegistryAlreadyShrunk,
    /// Reserved (formerly ShrinkWouldLoseData).
    ShrinkWouldLoseData,
    /// Account is already at the latest schema version.
    AlreadyLatestVersion,
    /// Unknown schema version - no migration path exists from this version.
    UnknownSchemaVersion,
    /// Cannot re-enable delegation while delegates still have stake; crank claim_delegate_from_disabled_gateway first.
    DelegatesStillActive,
    /// Cannot re-enable delegation until the disable cooldown (withdrawal period) has elapsed.
    DelegationCooldownActive,
    /// Delegation must be disabled on this gateway for this operation.
    DelegationNotDisabled,
    /// Supplied observer account does not match the observation's recorded observer.
    WrongObserverAccount,
    /// This epoch has a rent receipt: close_epoch requires the receipt PDA and its recorded creator as writable remaining_accounts.
    MissingEpochRentReceipt,
    /// Supplied epoch rent receipt is not this program's ['epoch_rent_receipt', epoch_index] PDA.
    InvalidEpochRentReceipt,
    /// Supplied creator account does not match the rent receipt's recorded creator.
    WrongEpochCreator,
    /// Epoch still exists - close_epoch is the path that refunds its rent to the creator.
    EpochStillExists,
    /// A gateway in this epoch's reward set had its weights overwritten by another epoch's tally; this epoch can no longer be distributed correctly.
    EpochWeightsClobbered,
    /// Only the live epoch may be tallied; tallying an older epoch would destroy the live epoch's weights.
    EpochNoLongerLive,
    /// Gateway predates the 1.1.0 layout and cannot be migrated in place.
    PreV110GatewayLayout,
    /// Signer is neither the gateway operator nor its operations address.
    NotGatewayAuthority,
    /// Gateway has not been migrated to the layout that carries an operations address; run migrate_gateway first.
    GatewayNotMigrated,
    /// The latest epoch is not finished: distribute it, or write it off with admin_close_stale_epoch, before continuing.
    LatestEpochUnfinished,
    /// The latest epoch's account must be supplied in remaining_accounts.
    MissingLatestEpochAccount,
    /// Gateway's delegated-stake counter does not match the expected value; the plan is stale.
    StaleDelegatedStakeCounter,
    /// Reconcile amount does not agree with the delegations supplied; the counter may only be lowered to their sum.
    DelegationReconcileMismatch,
    /// A delegation account was supplied more than once.
    DuplicateDelegationAccount,
    /// A supplied account is not a canonical Delegation account of this gateway.
    InvalidDelegationAccount,
    /// Supply counters do not match the expected values; the resync plan is stale.
    StaleSupplyCounters,
}

} // verus!
