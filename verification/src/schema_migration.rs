//! Bringing accounts to the current layout in place.

use vstd::prelude::*;
use crate::error::GarError;
use crate::state::accounts::{
    AllowlistEntry, Delegation, EpochSettings, Gateway, GatewaySettings, Observation, ObserverLookup,
    RedelegationRecord, SchemaVersion, Withdrawal, WithdrawalCounter,
};
use crate::state::constants::{
    allowlist_entry_version, delegation_version, epoch_settings_version, gateway_settings_version, gateway_version,
    observation_version, observer_lookup_version, redelegation_record_version, withdrawal_counter_version,
    withdrawal_version,
};

verus! {

/// Data grown to a size, with zeros behind. Data that is as long already, or longer,
/// stays as it is.
pub open spec fn grown(data: Seq<u8>, new_size: int) -> Seq<u8> {
    if data.len() >= new_size {
        data
    } else {
        data + Seq::new((new_size - data.len()) as nat, |i: int| 0u8)
    }
}

/// Grows the data of an account to a size, and never shrinks it. What is added is
/// zero, so that a version that was not there reads as unversioned.
pub fn grow_account(data: Vec<u8>, new_size: usize) -> (r: Vec<u8>)
    ensures
        r@ == grown(data@, new_size as int),
{
    let mut r = data;
    while r.len() < new_size
        invariant
            data@.len() <= r@.len(),
            r@.len() <= new_size || r@ == data@,
            r@ == grown(data@, r@.len() as int),
        decreases new_size - r@.len(),
    {
        r.push(0u8);
        assert(r@ =~= grown(data@, r@.len() as int));
    }
    r
}

/// Growing keeps all that was there, reaches the size, and once done changes nothing
/// when it is done again.
pub proof fn growing_only_adds(data: Seq<u8>, new_size: nat)
    ensures
        grown(data, new_size as int).len() >= new_size,
        grown(data, new_size as int).len() >= data.len(),
        grown(data, new_size as int).take(data.len() as int) == data,
        grown(grown(data, new_size as int), new_size as int) == grown(data, new_size as int),
{
    assert(grown(data, new_size as int).take(data.len() as int) =~= data);
}

/// Writes an encoded account over the start of an account's data, and tells whether
/// it fits. Data that it does not fit into is left alone.
pub fn write_account(data: &mut Vec<u8>, encoded: &Vec<u8>) -> (r: bool)
    ensures
        r == (encoded@.len() <= old(data)@.len()),
        final(data)@ == if r {
            encoded@ + old(data)@.skip(encoded@.len() as int)
        } else {
            old(data)@
        },
{
    if encoded.len() > data.len() {
        return false;
    }
    let mut i: usize = 0;
    while i < encoded.len()
        invariant
            i <= encoded@.len() <= data@.len(),
            data@.len() == old(data)@.len(),
            forall|j: int| 0 <= j < i ==> data@[j] == encoded@[j],
            forall|j: int| i <= j < data@.len() ==> data@[j] == old(data)@[j],
        decreases encoded@.len() - i,
    {
        data.set(i, encoded[i]);
        i = i + 1;
    }
    assert(data@ =~= encoded@ + old(data)@.skip(encoded@.len() as int));
    true
}

/// An account that was written before accounts carried a version.
pub open spec fn unversioned(version: SchemaVersion) -> bool {
    version == (SchemaVersion { major: 0, minor: 0, patch: 0 })
}

/// How far a version can be brought: an unversioned account is brought to 1.0.0, and
/// nothing else is brought any further.
pub open spec fn walked(version: SchemaVersion, target: SchemaVersion) -> SchemaVersion {
    if version.older_than(target) && unversioned(version) {
        SchemaVersion { major: 1, minor: 0, patch: 0 }
    } else {
        version
    }
}

/// There is no way from a version to the one wanted.
pub open spec fn no_path(version: SchemaVersion, target: SchemaVersion) -> bool {
    walked(version, target).older_than(target)
}

/// What walking an account to the current version comes to.
pub open spec fn walk_answers(r: Result<(), GarError>, version: SchemaVersion, target: SchemaVersion) -> bool {
    match r {
        Ok(()) => !no_path(version, target),
        Err(e) => no_path(version, target) && e == GarError::UnknownSchemaVersion,
    }
}

fn walk(version: &mut SchemaVersion, target: SchemaVersion) -> (r: Result<(), GarError>)
    ensures
        *final(version) == walked(*old(version), target),
        walk_answers(r, *old(version), target),
{
    while version.is_older_than(&target)
        invariant
            *version == *old(version) || (old(version).older_than(target) && unversioned(*old(version))
                && *version == walked(*old(version), target)),
        decreases (if unversioned(*version) {
            1int
        } else {
            0
        }),
    {
        if version.major == 0 && version.minor == 0 && version.patch == 0 {
            *version = SchemaVersion::new(1, 0, 0);
        } else {
            return Err(GarError::UnknownSchemaVersion);
        }
    }
    Ok(())
}

/// Whether there is anything to do for an account of a given version: one that is at
/// the wanted version, or past it, is refused.
pub fn check_outdated(version: SchemaVersion, target: SchemaVersion) -> (r: Result<(), GarError>)
    ensures
        match r {
            Ok(()) => version.older_than(target),
            Err(e) => !version.older_than(target) && e == GarError::AlreadyLatestVersion,
        },
{
    if version.is_older_than(&target) {
        Ok(())
    } else {
        Err(GarError::AlreadyLatestVersion)
    }
}

/// Brings a `GatewaySettings` to the current version.
pub fn migrate_gateway_settings_version(account: &mut GatewaySettings) -> (r: Result<(), GarError>)
    ensures
        *final(account) == (GatewaySettings {
            version: walked(old(account).version, gateway_settings_version()),
            ..*old(account)
        }),
        walk_answers(r, old(account).version, gateway_settings_version()),
{
    walk(&mut account.version, gateway_settings_version())
}

/// Brings a `Gateway` to the current version.
///
/// The current layout grew in the middle, so that there is no way to it from an
/// older one: such a gateway is opened anew.
pub fn migrate_gateway_version(account: &mut Gateway) -> (r: Result<(), GarError>)
    ensures
        *final(account) == (Gateway {
            version: walked(old(account).version, gateway_version()),
            ..*old(account)
        }),
        walk_answers(r, old(account).version, gateway_version()),
{
    walk(&mut account.version, gateway_version())
}

/// Brings a `Delegation` to the current version.
pub fn migrate_delegation_version(account: &mut Delegation) -> (r: Result<(), GarError>)
    ensures
        *final(account) == (Delegation {
            version: walked(old(account).version, delegation_version()),
            ..*old(account)
        }),
        walk_answers(r, old(account).version, delegation_version()),
{
    walk(&mut account.version, delegation_version())
}

/// Brings a `WithdrawalCounter` to the current version.
pub fn migrate_withdrawal_counter_version(account: &mut WithdrawalCounter) -> (r: Result<(), GarError>)
    ensures
        *final(account) == (WithdrawalCounter {
            version: walked(old(account).version, withdrawal_counter_version()),
            ..*old(account)
        }),
        walk_answers(r, old(account).version, withdrawal_counter_version()),
{
    walk(&mut account.version, withdrawal_counter_version())
}

/// Brings a `Withdrawal` to the current version.
pub fn migrate_withdrawal_version(account: &mut Withdrawal) -> (r: Result<(), GarError>)
    ensures
        *final(account) == (Withdrawal {
            version: walked(old(account).version, withdrawal_version()),
            ..*old(account)
        }),
        walk_answers(r, old(account).version, withdrawal_version()),
{
    walk(&mut account.version, withdrawal_version())
}

/// Brings an `AllowlistEntry` to the current version.
pub fn migrate_allowlist_entry_version(account: &mut AllowlistEntry) -> (r: Result<(), GarError>)
    ensures
        *final(account) == (AllowlistEntry {
            version: walked(old(account).version, allowlist_entry_version()),
            ..*old(account)
        }),
        walk_answers(r, old(account).version, allowlist_entry_version()),
{
    walk(&mut account.version, allowlist_entry_version())
}

/// Brings an `ObserverLookup` to the current version.
pub fn migrate_observer_lookup_version(account: &mut ObserverLookup) -> (r: Result<(), GarError>)
    ensures
        *final(account) == (ObserverLookup {
            version: walked(old(account).version, observer_lookup_version()),
            ..*old(account)
        }),
        walk_answers(r, old(account).version, observer_lookup_version()),
{
    walk(&mut account.version, observer_lookup_version())
}

/// Brings a `RedelegationRecord` to the current version.
pub fn migrate_redelegation_record_version(account: &mut RedelegationRecord) -> (r: Result<(), GarError>)
    ensures
        *final(account) == (RedelegationRecord {
            version: walked(old(account).version, redelegation_record_version()),
            ..*old(account)
        }),
        walk_answers(r, old(account).version, redelegation_record_version()),
{
    walk(&mut account.version, redelegation_record_version())
}

/// Brings an `EpochSettings` to the current version.
pub fn migrate_epoch_settings_version(account: &mut EpochSettings) -> (r: Result<(), GarError>)
    ensures
        *final(account) == (EpochSettings {
            version: walked(old(account).version, epoch_settings_version()),
            ..*old(account)
        }),
        walk_answers(r, old(account).version, epoch_settings_version()),
{
    walk(&mut account.version, epoch_settings_version())
}

/// Brings an `Observation` to the current version.
pub fn migrate_observation_version(account: &mut Observation) -> (r: Result<(), GarError>)
    ensures
        *final(account) == (Observation {
            version: walked(old(account).version, observation_version()),
            ..*old(account)
        }),
        walk_answers(r, old(account).version, observation_version()),
{
    walk(&mut account.version, observation_version())
}

/// An account that has been brought to the current version stays at it.
pub proof fn walking_is_idempotent(version: SchemaVersion, target: SchemaVersion)
    requires
        !no_path(version, target),
    ensures
        walked(walked(version, target), target) == walked(version, target),
        !no_path(walked(version, target), target),
{
}

/// An account that has been brought to the current version is no longer outdated: a
/// second migration is refused.
pub proof fn migrated_account_is_not_outdated(version: SchemaVersion, target: SchemaVersion)
    requires
        !no_path(version, target),
    ensures
        !walked(version, target).older_than(target),
{
}

/// An unversioned account of a type whose current version is 1.0.0 is brought to
/// it.
pub proof fn unversioned_account_reaches_first_version(version: SchemaVersion, target: SchemaVersion)
    requires
        unversioned(version),
        target == (SchemaVersion { major: 1, minor: 0, patch: 0 }),
    ensures
        walked(version, target) == target,
        !no_path(version, target),
{
}

/// A gateway of an older layout is refused: there is no way to the current one.
pub proof fn older_gateway_is_refused(version: SchemaVersion)
    requires
        version.older_than(gateway_version()),
    ensures
        no_path(version, gateway_version()),
{
}

/// A grown account starts with what was there and goes on with zeros up to the size; one
/// that is as long already stays.
pub proof fn growing_fills_up_with_zeros(data: Vec<u8>, new_size: usize, r: Vec<u8>)
    requires
        call_ensures(grow_account, (data, new_size), r),
    ensures
        data@.len() >= new_size ==> r@ == data@,
        data@.len() < new_size ==> r@.len() == new_size,
        forall|i: int| 0 <= i < data@.len() ==> #[trigger] r@[i] == data@[i],
        forall|i: int| data@.len() <= i < r@.len() ==> #[trigger] r@[i] == 0,
{
}

/// Writing an account puts the encoded bytes first and keeps what is behind them; data that
/// they do not fit into stays.
pub proof fn writing_replaces_the_start(data: &mut Vec<u8>, encoded: Vec<u8>, r: bool)
    requires
        call_ensures(write_account, (data, &encoded), r),
    ensures
        r <==> encoded@.len() <= old(data)@.len(),
        final(data)@.len() == old(data)@.len(),
        r ==> forall|i: int| 0 <= i < encoded@.len() ==> #[trigger] final(data)@[i] == encoded@[i],
        r ==> forall|i: int| encoded@.len() <= i < old(data)@.len() ==> #[trigger] final(data)@[i] == old(data)@[i],
        !r ==> final(data)@ == old(data)@,
{
}

/// An account is outdated if its version comes before the one wanted, by major, then minor,
/// then patch number.
pub proof fn outdated_means_older(version: SchemaVersion, target: SchemaVersion, r: Result<(), GarError>)
    requires
        call_ensures(check_outdated, (version, target), r),
    ensures
        r is Ok <==> 65_536 * version.major + 256 * version.minor + version.patch < 65_536 * target.major + 256
            * target.minor + target.patch,
        r matches Err(e) ==> e == GarError::AlreadyLatestVersion,
{
}

/// A version is brought to 1.0.0 from none, stays if it is 1.0.0 or later, and is refused
/// and left alone in between.
pub open spec fn brought_to_first(before: SchemaVersion, after: SchemaVersion, r: Result<(), GarError>) -> bool {
    if before.major == 0 && before.minor == 0 && before.patch == 0 {
        r is Ok && after.major == 1 && after.minor == 0 && after.patch == 0
    } else if before.major >= 1 {
        r is Ok && after == before
    } else {
        r == Err::<(), GarError>(GarError::UnknownSchemaVersion) && after == before
    }
}

/// Accounts of all types but gateways are brought to version 1.0.0; nothing in them changes
/// but the version.
pub proof fn accounts_are_brought_to_the_first_version(
    settings: &mut GatewaySettings,
    settings_done: Result<(), GarError>,
    delegation: &mut Delegation,
    delegation_done: Result<(), GarError>,
    counter: &mut WithdrawalCounter,
    counter_done: Result<(), GarError>,
    withdrawal: &mut Withdrawal,
    withdrawal_done: Result<(), GarError>,
    entry: &mut AllowlistEntry,
    entry_done: Result<(), GarError>,
    lookup: &mut ObserverLookup,
    lookup_done: Result<(), GarError>,
    record: &mut RedelegationRecord,
    record_done: Result<(), GarError>,
    epochs: &mut EpochSettings,
    epochs_done: Result<(), GarError>,
    observation: &mut Observation,
    observation_done: Result<(), GarError>,
)
    requires
        call_ensures(migrate_gateway_settings_version, (settings,), settings_done),
        call_ensures(migrate_delegation_version, (delegation,), delegation_done),
        call_ensures(migrate_withdrawal_counter_version, (counter,), counter_done),
        call_ensures(migrate_withdrawal_version, (withdrawal,), withdrawal_done),
        call_ensures(migrate_allowlist_entry_version, (entry,), entry_done),
        call_ensures(migrate_observer_lookup_version, (lookup,), lookup_done),
        call_ensures(migrate_redelegation_record_version, (record,), record_done),
        call_ensures(migrate_epoch_settings_version, (epochs,), epochs_done),
        call_ensures(migrate_observation_version, (observation,), observation_done),
    ensures
        brought_to_first(old(settings).version, final(settings).version, settings_done),
        *final(settings) == (GatewaySettings { version: final(settings).version, ..*old(settings) }),
        brought_to_first(old(delegation).version, final(delegation).version, delegation_done),
        *final(delegation) == (Delegation { version: final(delegation).version, ..*old(delegation) }),
        brought_to_first(old(counter).version, final(counter).version, counter_done),
        *final(counter) == (WithdrawalCounter { version: final(counter).version, ..*old(counter) }),
        brought_to_first(old(withdrawal).version, final(withdrawal).version, withdrawal_done),
        *final(withdrawal) == (Withdrawal { version: final(withdrawal).version, ..*old(withdrawal) }),
        brought_to_first(old(entry).version, final(entry).version, entry_done),
        *final(entry) == (AllowlistEntry { version: final(entry).version, ..*old(entry) }),
        brought_to_first(old(lookup).version, final(lookup).version, lookup_done),
        *final(lookup) == (ObserverLookup { version: final(lookup).version, ..*old(lookup) }),
        brought_to_first(old(record).version, final(record).version, record_done),
        *final(record) == (RedelegationRecord { version: final(record).version, ..*old(record) }),
        brought_to_first(old(epochs).version, final(epochs).version, epochs_done),
        *final(epochs) == (EpochSettings { version: final(epochs).version, ..*old(epochs) }),
        brought_to_first(old(observation).version, final(observation).version, observation_done),
        *final(observation) == (Observation { version: final(observation).version, ..*old(observation) }),
{
}

/// A gateway at 1.1.0 or later stays; any other is refused, and nothing in it changes but
/// the version.
pub proof fn gateways_are_not_brought_on(gateway: &mut Gateway, r: Result<(), GarError>)
    requires
        call_ensures(migrate_gateway_version, (gateway,), r),
    ensures
        ({
            let v = old(gateway).version;
            &&& r is Ok <==> v.major > 1 || v.major == 1 && v.minor >= 1
            &&& r is Ok ==> *final(gateway) == *old(gateway)
            &&& r matches Err(e) ==> e == GarError::UnknownSchemaVersion
            &&& *final(gateway) == (Gateway { version: final(gateway).version, ..*old(gateway) })
        }),
{
}

} // verus!
