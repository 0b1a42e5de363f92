//! Submitting the report of a prescribed observer, and closing it.

use vstd::prelude::*;
use crate::error::GarError;
use crate::events::ObservationSubmittedEvent;
use crate::instructions::distribution::plus_one_u8;
use crate::pubkey::Pubkey;
use crate::state::accounts::{Observation, SchemaVersion};
use crate::state::epoch::{bit_at, byte_bit, Epoch};

verus! {

/// The accounts of `save_observations`.
#[derive(Clone, Copy, Debug)]
pub struct SaveObservations {
    pub epoch: Epoch,
    pub observer: Pubkey,
    /// The bump seed of the observation to be opened.
    pub observation_bump: u8,
}

/// The place of an observer from `i` on among the first `n` prescribed ones.
pub open spec fn observer_at(observers: Seq<Pubkey>, n: int, observer: Pubkey, i: int) -> Option<int>
    decreases n - i,
{
    if i >= n {
        None
    } else if observers[i] == observer {
        Some(i)
    } else {
        observer_at(observers, n, observer, i + 1)
    }
}

/// The place of the signer among the prescribed observers.
pub open spec fn place_of(ctx: SaveObservations) -> Option<int> {
    observer_at(ctx.epoch.prescribed_observers@, ctx.epoch.observer_count as int, ctx.observer, 0)
}

fn find_observer(ctx: &SaveObservations) -> (r: Option<usize>)
    requires
        ctx.epoch.observer_count <= 50,
    ensures
        match r {
            Some(i) => place_of(*ctx) == Some(i as int) && i < 50,
            None => place_of(*ctx) is None,
        },
{
    let n: usize = ctx.epoch.observer_count as usize;
    let mut i: usize = 0;
    while i < n
        invariant
            i <= n <= 50,
            n == ctx.epoch.observer_count,
            place_of(*ctx) == observer_at(
                ctx.epoch.prescribed_observers@,
                n as int,
                ctx.observer,
                i as int,
            ),
        decreases n - i,
    {
        if ctx.epoch.prescribed_observers[i] == ctx.observer {
            return Some(i);
        }
        i = i + 1;
    }
    None
}

/// Why a report is refused, if it is.
pub open spec fn observation_refusal(ctx: SaveObservations, gateway_count: u16, now: i64) -> Option<GarError> {
    if ctx.epoch.prescriptions_done == 0 {
        Some(GarError::PrescriptionsNotDone)
    } else if now < ctx.epoch.start_timestamp {
        Some(GarError::EpochNotStarted)
    } else if now >= ctx.epoch.end_timestamp {
        Some(GarError::EpochEnded)
    } else if gateway_count != ctx.epoch.active_gateway_count {
        Some(GarError::InvalidObservation)
    } else if place_of(ctx) is None {
        Some(GarError::NotPrescribedObserver)
    } else {
        None
    }
}

/// The failures reported of a gateway of the epoch after one more report, in which
/// a set bit means that the gateway passed.
pub open spec fn failures_after(count: u16, results: Seq<u8>, slot: int, active: int) -> u16 {
    if slot < active && !bit_at(results, slot) && count < u16::MAX {
        (count + 1) as u16
    } else {
        count
    }
}

/// The epoch after one more report.
pub open spec fn epoch_after_report(before: Epoch, place: int, results: Seq<u8>, after: Epoch) -> bool {
    &&& after == (Epoch {
        has_observed: after.has_observed,
        failure_counts: after.failure_counts,
        observations_submitted: plus_one_u8(before.observations_submitted),
        ..before
    })
    &&& after.has_observed@ == before.has_observed@.update(
        place / 8,
        before.has_observed@[place / 8] | (1u8 << ((place % 8) as u8)),
    )
    &&& forall|j: int| 0 <= j < 50 ==> (#[trigger] after.observed(j) <==> before.observed(j) || j == place)
    &&& forall|i: int|
        0 <= i < 3000 ==> #[trigger] after.failure_counts@[i] == failures_after(
            before.failure_counts@[i],
            results,
            i,
            before.active_gateway_count as int,
        )
}

fn count_failures(counts: &mut [u16; 3000], results: &[u8; 375], active: u32)
    ensures
        forall|i: int|
            0 <= i < 3000 ==> #[trigger] final(counts)@[i] == failures_after(
                old(counts)@[i],
                results@,
                i,
                active as int,
            ),
{
    let reported: usize = if active < 3000 {
        active as usize
    } else {
        3000
    };
    let mut i: usize = 0;
    while i < reported
        invariant
            i <= reported <= 3000,
            reported <= active,
            reported == active || reported == 3000,
            forall|j: int|
                0 <= j < i ==> #[trigger] counts@[j] == failures_after(
                    old(counts)@[j],
                    results@,
                    j,
                    active as int,
                ),
            forall|j: int| i <= j < 3000 ==> counts@[j] == old(counts)@[j],
        decreases reported - i,
    {
        let bit: u8 = (i % 8) as u8;
        let passed: u8 = (results[i / 8] >> bit) & 1;
        let byte: u8 = results[i / 8];
        assert((byte >> bit) & 1 == 0 || (byte >> bit) & 1 == 1) by (bit_vector);
        assert(bit_at(results@, i as int) == byte_bit(byte, bit));
        if passed == 0 {
            counts[i] = counts[i].saturating_add(1);
        }
        i = i + 1;
    }
}

/// Takes the report of a prescribed observer while the epoch runs.
pub fn save_observations(
    ctx: SaveObservations,
    gateway_results: [u8; 375],
    gateway_count: u16,
    report_tx_id: [u8; 32],
    now: i64,
) -> (r: Result<(Epoch, Observation, ObservationSubmittedEvent), GarError>)
    requires
        ctx.epoch.observer_count <= 50,
    ensures
        match r {
            Err(e) => observation_refusal(ctx, gateway_count, now) == Some(e),
            Ok((epoch, observation, event)) => {
                &&& observation_refusal(ctx, gateway_count, now) is None
                &&& epoch_after_report(ctx.epoch, place_of(ctx)->Some_0, gateway_results@, epoch)
                &&& observation == (Observation {
                    epoch_index: ctx.epoch.epoch_index,
                    observer: ctx.observer,
                    gateway_results,
                    gateway_count,
                    report_tx_id,
                    submitted_at: now,
                    bump: ctx.observation_bump,
                    version: SchemaVersion { major: 0, minor: 0, patch: 0 },
                })
                &&& event == (ObservationSubmittedEvent {
                    epoch_index: ctx.epoch.epoch_index,
                    observer: ctx.observer,
                    gateway_count,
                    report_tx_id,
                    timestamp: now,
                })
            },
        },
{
    if ctx.epoch.prescriptions_done == 0 {
        return Err(GarError::PrescriptionsNotDone);
    }
    if now < ctx.epoch.start_timestamp {
        return Err(GarError::EpochNotStarted);
    }
    if now >= ctx.epoch.end_timestamp {
        return Err(GarError::EpochEnded);
    }
    if gateway_count as u32 != ctx.epoch.active_gateway_count {
        return Err(GarError::InvalidObservation);
    }
    let place: usize = match find_observer(&ctx) {
        None => {
            return Err(GarError::NotPrescribedObserver);
        },
        Some(place) => place,
    };
    let mut epoch = ctx.epoch;
    epoch.set_observed(place);
    let observation = Observation {
        epoch_index: epoch.epoch_index,
        observer: ctx.observer,
        gateway_results,
        gateway_count,
        report_tx_id,
        submitted_at: now,
        bump: ctx.observation_bump,
        version: SchemaVersion::new(0, 0, 0),
    };
    let ghost marked = epoch;
    let active: u32 = epoch.active_gateway_count;
    count_failures(&mut epoch.failure_counts, &gateway_results, active);
    epoch.observations_submitted = epoch.observations_submitted.saturating_add(1);
    proof {
        assert forall|j: int| 0 <= j < 50 implies (#[trigger] epoch.observed(j) <==> ctx.epoch.observed(j) || j
            == place) by {
            assert(epoch.observed(j) == marked.observed(j));
        }
    }
    let event = ObservationSubmittedEvent {
        epoch_index: epoch.epoch_index,
        observer: observation.observer,
        gateway_count,
        report_tx_id,
        timestamp: now,
    };
    Ok((epoch, observation, event))
}

/// The accounts of `close_observation`. The observation's account is closed.
#[derive(Clone, Copy, Debug)]
pub struct CloseObservation {
    pub epoch: Epoch,
    pub observation: Observation,
}

/// Why an observation cannot be closed, if so.
pub open spec fn close_observation_refusal(ctx: CloseObservation, epoch_index: u64) -> Option<GarError> {
    if ctx.observation.epoch_index != epoch_index {
        Some(GarError::InvalidEpochIndex)
    } else if ctx.epoch.rewards_distributed == 0 {
        Some(GarError::EpochNotCloseable)
    } else {
        None
    }
}

/// Closes an observation of an epoch that has been distributed. Anyone may do so.
pub fn close_observation(ctx: CloseObservation, epoch_index: u64) -> (r: Result<Epoch, GarError>)
    ensures
        match r {
            Err(e) => close_observation_refusal(ctx, epoch_index) == Some(e),
            Ok(epoch) => {
                &&& close_observation_refusal(ctx, epoch_index) is None
                &&& epoch == (Epoch {
                    observations_closed: plus_one_u8(ctx.epoch.observations_closed),
                    ..ctx.epoch
                })
            },
        },
{
    if ctx.observation.epoch_index != epoch_index {
        return Err(GarError::InvalidEpochIndex);
    }
    if ctx.epoch.rewards_distributed == 0 {
        return Err(GarError::EpochNotCloseable);
    }
    let mut epoch = ctx.epoch;
    epoch.observations_closed = epoch.observations_closed.saturating_add(1);
    Ok(epoch)
}

/// A gateway that the report passes keeps its count of failures, and one that it
/// fails has one more.
pub proof fn report_counts_failures(before: Epoch, place: int, results: Seq<u8>, after: Epoch, slot: int)
    requires
        epoch_after_report(before, place, results, after),
        0 <= slot < before.active_gateway_count,
        before.active_gateway_count <= 3000,
        before.failure_counts@[slot] < u16::MAX,
    ensures
        after.failure_counts@[slot] == before.failure_counts@[slot] + if bit_at(results, slot) {
            0int
        } else {
            1
        },
{
}

proof fn lemma_observer_at(observers: Seq<Pubkey>, n: int, observer: Pubkey, i: int)
    requires
        0 <= i,
    ensures
        match observer_at(observers, n, observer, i) {
            Some(k) => i <= k < n && observers[k] == observer && forall|j: int| i <= j < k ==> observers[j] != observer,
            None => forall|j: int| i <= j < n ==> observers[j] != observer,
        },
    decreases n - i,
{
    if i < n {
        lemma_observer_at(observers, n, observer, i + 1);
    }
}

/// A report is taken from a prescribed observer alone, while the epoch runs, about as
/// many gateways as the epoch has. It marks the observer, counts one more report, and
/// one more failure against exactly those gateways whose bit is not set.
pub proof fn report_counts_against_gateways_without_a_bit(
    ctx: SaveObservations,
    results: [u8; 375],
    gateway_count: u16,
    report_tx_id: [u8; 32],
    now: i64,
    r: Result<(Epoch, Observation, ObservationSubmittedEvent), GarError>,
)
    requires
        ctx.epoch.observer_count <= 50,
        call_ensures(save_observations, (ctx, results, gateway_count, report_tx_id, now), r),
    ensures
        r is Ok <==> ctx.epoch.prescriptions_done != 0 && ctx.epoch.start_timestamp <= now < ctx.epoch.end_timestamp
            && gateway_count == ctx.epoch.active_gateway_count && exists|i: int|
            0 <= i < ctx.epoch.observer_count && #[trigger] ctx.epoch.prescribed_observers@[i] == ctx.observer,
        r matches Err(e) ==> match e {
            GarError::PrescriptionsNotDone => ctx.epoch.prescriptions_done == 0,
            GarError::EpochNotStarted => now < ctx.epoch.start_timestamp,
            GarError::EpochEnded => now >= ctx.epoch.end_timestamp,
            GarError::InvalidObservation => gateway_count != ctx.epoch.active_gateway_count,
            GarError::NotPrescribedObserver => forall|i: int|
                0 <= i < ctx.epoch.observer_count ==> #[trigger] ctx.epoch.prescribed_observers@[i] != ctx.observer,
            _ => false,
        },
        r matches Ok((epoch, observation, event)) ==> {
            let before = ctx.epoch;
            &&& epoch == (Epoch {
                has_observed: epoch.has_observed,
                failure_counts: epoch.failure_counts,
                observations_submitted: epoch.observations_submitted,
                ..before
            })
            &&& before.observations_submitted < u8::MAX ==> epoch.observations_submitted
                == before.observations_submitted + 1
            &&& forall|k: int|
                0 <= k < 3000 && k < gateway_count && (results@[k / 8] >> ((k % 8) as u8)) & 1 == 1
                    ==> #[trigger] epoch.failure_counts@[k] == before.failure_counts@[k]
            &&& forall|k: int|
                0 <= k < 3000 && k < gateway_count && (results@[k / 8] >> ((k % 8) as u8)) & 1 != 1
                    && before.failure_counts@[k] < u16::MAX ==> #[trigger] epoch.failure_counts@[k]
                    == before.failure_counts@[k] + 1
            &&& forall|k: int|
                gateway_count <= k < 3000 ==> #[trigger] epoch.failure_counts@[k] == before.failure_counts@[k]
            &&& forall|i: int|
                0 <= i < before.observer_count && #[trigger] before.prescribed_observers@[i] == ctx.observer && (forall|
                    j: int,
                | 0 <= j < i ==> before.prescribed_observers@[j] != ctx.observer) ==> epoch.observed(i)
            &&& forall|i: int|
                0 <= i < 50 && before.prescribed_observers@[i] != ctx.observer ==> (#[trigger] epoch.observed(i)
                    <==> before.observed(i))
            &&& observation.epoch_index == before.epoch_index
            &&& observation.observer == ctx.observer
            &&& observation.gateway_results == results
            &&& observation.gateway_count == gateway_count
            &&& observation.report_tx_id == report_tx_id
            &&& observation.submitted_at == now
            &&& observation.bump == ctx.observation_bump
            &&& observation.version.major == 0 && observation.version.minor == 0 && observation.version.patch == 0
            &&& event.epoch_index == before.epoch_index
            &&& event.observer == ctx.observer
            &&& event.gateway_count == gateway_count
            &&& event.report_tx_id == report_tx_id
            &&& event.timestamp == now
        },
{
    lemma_observer_at(ctx.epoch.prescribed_observers@, ctx.epoch.observer_count as int, ctx.observer, 0);
}

/// An observation is closed once its epoch is distributed, and the epoch counts it.
pub proof fn observation_closes_after_distribution(ctx: CloseObservation, epoch_index: u64, r: Result<Epoch, GarError>)
    requires
        call_ensures(close_observation, (ctx, epoch_index), r),
    ensures
        r is Ok <==> ctx.observation.epoch_index == epoch_index && ctx.epoch.rewards_distributed != 0,
        r matches Err(e) ==> match e {
            GarError::InvalidEpochIndex => ctx.observation.epoch_index != epoch_index,
            GarError::EpochNotCloseable => ctx.epoch.rewards_distributed == 0,
            _ => false,
        },
        r matches Ok(epoch) ==> {
            &&& epoch == (Epoch { observations_closed: epoch.observations_closed, ..ctx.epoch })
            &&& ctx.epoch.observations_closed < u8::MAX ==> epoch.observations_closed == ctx.epoch.observations_closed
                + 1
        },
{
}

} // verus!
