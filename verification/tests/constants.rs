use ario_gar::migration::{known_discriminator, GATEWAY_NAME};
use ario_gar::state::constants::{
    ALLOWLIST_SEED, ARNS_NAME_REGISTRY_SEED, DELEGATION_SEED, EPOCH_SEED, EPOCH_SETTINGS_SEED, GATEWAY_SEED,
    OBSERVATION_SEED, OBSERVER_LOOKUP_SEED, REDELEGATION_SEED, REGISTRY_SEED, SETTINGS_SEED,
    WITHDRAWAL_COUNTER_SEED, WITHDRAWAL_SEED,
};
use ario_gar::state::constants::{
    DEFAULT_EPOCH_DURATION, GATEWAY_LEAVE_PERIOD, GATEWAY_OPERATOR_REWARD_RATE, MAX_DELEGATE_REWARD_SHARE,
    MAX_EXPEDITED_WITHDRAWAL_PENALTY, MAX_REWARD_RATE, MIGRATION_DEADLINE, MIN_EXPEDITED_WITHDRAWAL_AMOUNT,
    MIN_EXPEDITED_WITHDRAWAL_PENALTY, MIN_REWARD_RATE, MISSED_OBSERVATION_PENALTY, OBSERVER_REWARD_RATE, RATE_SCALE,
    REWARD_DECAY_LAST_EPOCH, REWARD_DECAY_START_EPOCH, WITHDRAWAL_LOCK_PERIOD,
};
use ario_gar::state::Gateway;

#[test]
fn withdrawal_period_30_days() {
    assert_eq!(WITHDRAWAL_LOCK_PERIOD, 30 * 86_400);
    assert_eq!(WITHDRAWAL_LOCK_PERIOD, 2_592_000);
}

#[test]
fn leave_period_90_days() {
    assert_eq!(GATEWAY_LEAVE_PERIOD, 90 * 86_400);
    assert_eq!(GATEWAY_LEAVE_PERIOD, 7_776_000);
}

#[test]
fn max_penalty_50pct() {
    assert_eq!(MAX_EXPEDITED_WITHDRAWAL_PENALTY, 500_000);
}

#[test]
fn min_penalty_10pct() {
    assert_eq!(MIN_EXPEDITED_WITHDRAWAL_PENALTY, 100_000);
}

#[test]
fn min_withdrawal_1_ario() {
    assert_eq!(MIN_EXPEDITED_WITHDRAWAL_AMOUNT, 1_000_000);
}

#[test]
fn gateway_reward_rate_90pct() {
    assert_eq!(GATEWAY_OPERATOR_REWARD_RATE, 900_000);
}

#[test]
fn observer_reward_rate_10pct() {
    assert_eq!(OBSERVER_REWARD_RATE, 100_000);
}

#[test]
fn max_reward_rate_01pct() {
    assert_eq!(MAX_REWARD_RATE, 1_000);
}

#[test]
fn min_reward_rate_005pct() {
    assert_eq!(MIN_REWARD_RATE, 500);
}

#[test]
fn decay_start_365() {
    assert_eq!(REWARD_DECAY_START_EPOCH, 365);
}

#[test]
fn decay_last_547() {
    assert_eq!(REWARD_DECAY_LAST_EPOCH, 547);
    assert_eq!(REWARD_DECAY_LAST_EPOCH, 365 + 182);
}

#[test]
fn missed_obs_penalty_25pct() {
    assert_eq!(MISSED_OBSERVATION_PENALTY, 250_000);
}

#[test]
fn max_delegate_share_95pct() {
    assert_eq!(MAX_DELEGATE_REWARD_SHARE, 9500);
}

#[test]
fn min_operator_stake_20k() {
    assert_eq!(Gateway::MIN_OPERATOR_STAKE, 20_000_000_000);
}

#[test]
fn epoch_duration_1_day() {
    assert_eq!(DEFAULT_EPOCH_DURATION, 86_400);
}

#[test]
fn rate_scale_value() {
    assert_eq!(RATE_SCALE, 1_000_000);
}

#[test]
fn migration_deadline_is_set() {
    assert!(MIGRATION_DEADLINE > 0, "migration deadline must be positive");
}

fn discriminator(name: &[u8]) -> [u8; 8] {
    let h = anchor_lang::solana_program::hash::hash(name);
    h.to_bytes()[..8].try_into().unwrap()
}

#[test]
fn epoch_settings_excluded_from_import_allowlist() {
    assert!(known_discriminator(&discriminator(b"account:EpochSettings")).is_none());
}

#[test]
fn gateway_settings_excluded_from_import_allowlist() {
    assert!(known_discriminator(&discriminator(b"account:GatewaySettings")).is_none());
}

#[test]
fn allowlist_smoke_check_includes_gateway() {
    assert_eq!(&GATEWAY_NAME[..], b"account:Gateway");
    assert_eq!(
        known_discriminator(&discriminator(b"account:Gateway")),
        Some(Gateway::SIZE),
        "Gateway must still resolve through known_discriminator"
    );
}

#[test]
fn every_imported_type_has_its_size() {
    let sizes: [(&[u8], usize); 8] = [
        (b"account:Delegation", 105),
        (b"account:Withdrawal", 108),
        (b"account:WithdrawalCounter", 49),
        (b"account:AllowlistEntry", 81),
        (b"account:RedelegationRecord", 61),
        (b"account:Observation", 466),
        (b"account:ObserverLookup", 41),
        (b"account:Epoch", 9400),
    ];
    for (name, size) in sizes {
        assert_eq!(known_discriminator(&discriminator(name)), Some(size));
    }
    assert_eq!(known_discriminator(&[0u8; 8]), None);
}

#[test]
fn seeds_spell_their_names() {
    assert_eq!(&GATEWAY_SEED[..], b"gateway");
    assert_eq!(&REGISTRY_SEED[..], b"gateway_registry");
    assert_eq!(&SETTINGS_SEED[..], b"gar_settings");
    assert_eq!(&DELEGATION_SEED[..], b"delegation");
    assert_eq!(&WITHDRAWAL_SEED[..], b"withdrawal");
    assert_eq!(&WITHDRAWAL_COUNTER_SEED[..], b"withdrawal_counter");
    assert_eq!(&ALLOWLIST_SEED[..], b"allowlist");
    assert_eq!(&OBSERVER_LOOKUP_SEED[..], b"observer_lookup");
    assert_eq!(&EPOCH_SEED[..], b"epoch");
    assert_eq!(&EPOCH_SETTINGS_SEED[..], b"epoch_settings");
    assert_eq!(&OBSERVATION_SEED[..], b"observation");
    assert_eq!(&REDELEGATION_SEED[..], b"redelegation");
    assert_eq!(&ARNS_NAME_REGISTRY_SEED[..], b"name_registry");
}
