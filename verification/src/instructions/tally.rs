//! Tallying the weights of the gateways of an epoch.

use vstd::prelude::*;
use crate::addresses::{gateway_address, gateway_pda};
use crate::arith::{cap_to_u64, cap_u64, lesser};
use crate::error::GarError;
use crate::events::EpochWeightsTalliedEvent;
use crate::instructions::effects::Refusal;
use crate::instructions::gateway_account::GatewayAccount;
use crate::instructions::places::{
    gateway_places, gateway_slots, place_in, places_are_distinct, places_rest_on_times_alone, slots_in,
};
use crate::instructions::roulette::{lemma_sum_is_total, lemma_weight_sum_bounds, weight_sum, weight_total};
use crate::pubkey::Pubkey;
use crate::state::accounts::{
    EpochSettings, Gateway, GatewayRegistry, GatewaySettings, GatewaySlot, GatewayStatus,
};
use crate::state::constants::RATE_SCALE;
use crate::state::epoch::Epoch;
use crate::state::weights::{computed_weights, time_running, GatewayWeights};

verus! {

/// The accounts of `tally_weights`.
#[derive(Clone, Debug)]
pub struct TallyWeights {
    pub settings: GatewaySettings,
    pub epoch_settings: EpochSettings,
    pub epoch: Epoch,
    pub registry: GatewayRegistry,
    /// The gateways of the batch, in the order of the epoch.
    pub accounts: Vec<GatewayAccount>,
    pub program_id: Pubkey,
}

/// The weights of a gateway in the epoch.
pub open spec fn weights_now(
    settings: GatewaySettings,
    epoch_settings: EpochSettings,
    epoch_index: u64,
    gateway: Gateway,
    now: i64,
) -> GatewayWeights {
    GatewayWeights {
        weights_epoch: epoch_index,
        ..computed_weights(
            cap_u64(gateway.operator_stake + gateway.total_delegated_stake) as u64,
            settings.min_operator_stake,
            gateway.start_timestamp,
            now,
            epoch_settings.tenure_weight_duration,
            epoch_settings.max_tenure_weight,
            gateway.stats,
            RATE_SCALE,
        )
    }
}

/// The weight that counts: none for a gateway that joined after the epoch started.
pub open spec fn counted_weight(weights: GatewayWeights, gateway: Gateway, epoch_start: i64) -> u64 {
    if gateway.start_timestamp > epoch_start {
        0
    } else {
        weights.composite_weight
    }
}

/// Works out the weights of a gateway in an epoch, and the weight that counts.
pub fn weigh_gateway(
    settings: &GatewaySettings,
    epoch_settings: &EpochSettings,
    epoch_index: u64,
    epoch_start: i64,
    gateway: &Gateway,
    now: i64,
) -> (r: (GatewayWeights, u64))
    requires
        time_running(gateway.start_timestamp, now) <= i64::MAX,
    ensures
        r.0 == weights_now(*settings, *epoch_settings, epoch_index, *gateway, now),
        r.1 == counted_weight(r.0, *gateway, epoch_start),
{
    let mut weights = GatewayWeights::compute(
        gateway.total_stake(),
        settings.min_operator_stake,
        gateway.start_timestamp,
        now,
        epoch_settings.tenure_weight_duration,
        epoch_settings.max_tenure_weight,
        &gateway.stats,
        RATE_SCALE,
    );
    let counted: u64 = if gateway.start_timestamp > epoch_start {
        0
    } else {
        weights.composite_weight
    };
    weights.weights_epoch = epoch_index;
    (weights, counted)
}

/// What is wrong with a gateway of a batch, if anything. `expected` is the address
/// that its operator gives.
pub open spec fn tally_refusal(key: Pubkey, expected: Pubkey, gateway: Gateway, slot: GatewaySlot) -> Option<GarError> {
    if key != expected {
        Some(GarError::InvalidGatewayAccount)
    } else if slot.address != gateway.operator {
        Some(GarError::InvalidGatewayAccount)
    } else {
        None
    }
}

/// How far a batch has been tallied.
pub struct TallyState {
    pub epoch: Epoch,
    pub slots: Seq<GatewaySlot>,
    pub accounts: Seq<GatewayAccount>,
}

/// The slot of the next gateway to be tallied.
pub open spec fn next_place(ctx: TallyWeights, st: TallyState) -> int {
    place_in(ctx.registry, ctx.epoch, st.epoch.tally_index as int)
}

/// The state after a slot that does not count: it has no weight.
pub open spec fn passed_over(ctx: TallyWeights, st: TallyState) -> TallyState {
    let at = next_place(ctx, st);
    TallyState {
        epoch: Epoch { tally_index: (st.epoch.tally_index + 1) as u32, ..st.epoch },
        slots: st.slots.update(at, GatewaySlot { composite_weight: 0, ..st.slots[at] }),
        ..st
    }
}

/// The state after a gateway that counts: its weight stands in its slot, with
/// whether it carries delegated stake, and in the epoch's sum; its weights stand
/// in its account.
pub open spec fn weighed(ctx: TallyWeights, st: TallyState, k: int, gateway: Gateway, now: i64) -> TallyState {
    let at = next_place(ctx, st);
    let weights = weights_now(ctx.settings, ctx.epoch_settings, st.epoch.epoch_index, gateway, now);
    let counted = counted_weight(weights, gateway, st.epoch.start_timestamp);
    TallyState {
        epoch: Epoch {
            tally_index: (st.epoch.tally_index + 1) as u32,
            ..st.epoch.with_composite_total(
                lesser(st.epoch.composite_total() + counted, u128::MAX as int),
            )
        },
        slots: st.slots.update(
            at,
            GatewaySlot {
                composite_weight: counted,
                delegated_at_tally: if gateway.total_delegated_stake > 0 {
                    1
                } else {
                    0
                },
                ..st.slots[at]
            },
        ),
        accounts: st.accounts.update(
            k,
            GatewayAccount { gateway: Some(Gateway { weights, ..gateway }), ..st.accounts[k] },
        ),
    }
}

/// The state after the account at place `k`.
pub open spec fn tally_account(ctx: TallyWeights, st: TallyState, k: int, now: i64) -> Result<TallyState, Refusal> {
    let slot = st.slots[next_place(ctx, st)];
    let account = st.accounts[k];
    if slot.address == Pubkey::zero() {
        Ok(passed_over(ctx, st))
    } else if !account.owned {
        Err(Refusal::Gar(GarError::InvalidGatewayAccount))
    } else {
        match account.gateway {
            None => Err(Refusal::Gar(GarError::InvalidGatewayAccount)),
            Some(gateway) => match gateway_pda(gateway.operator, ctx.program_id) {
                None => Err(Refusal::NoProgramAddress),
                Some((expected, bump)) => match tally_refusal(account.key, expected, gateway, slot) {
                    Some(e) => Err(Refusal::Gar(e)),
                    None => if gateway.status != GatewayStatus::Joined {
                        Ok(passed_over(ctx, st))
                    } else {
                        Ok(weighed(ctx, st, k, gateway, now))
                    },
                },
            },
        }
    }
}

/// The tally of a batch from account `k` on. It ends with the accounts or with the
/// epoch's gateways, whichever comes first.
pub open spec fn tally_from(ctx: TallyWeights, st: TallyState, k: int, now: i64) -> Result<TallyState, Refusal>
    decreases ctx.accounts@.len() - k,
{
    if k >= ctx.accounts@.len() || st.epoch.tally_index >= ctx.epoch.active_gateway_count {
        Ok(st)
    } else {
        match tally_account(ctx, st, k, now) {
            Err(e) => Err(e),
            Ok(next) => tally_from(ctx, next, k + 1, now),
        }
    }
}

/// The state before a batch.
pub open spec fn tally_start(ctx: TallyWeights) -> TallyState {
    TallyState { epoch: ctx.epoch, slots: ctx.registry.gateways@, accounts: ctx.accounts@ }
}

/// The epoch after a batch: the last one marks it as tallied.
pub open spec fn epoch_after_tally(epoch: Epoch) -> Epoch {
    Epoch {
        weights_tallied: if epoch.tally_index >= epoch.active_gateway_count {
            1
        } else {
            epoch.weights_tallied
        },
        ..epoch
    }
}

/// What tallying a batch comes to.
pub open spec fn tally(ctx: TallyWeights, now: i64) -> Result<TallyState, Refusal> {
    if ctx.epoch.weights_tallied != 0 {
        Err(Refusal::Gar(GarError::WeightsAlreadyTallied))
    } else {
        match tally_from(ctx, tally_start(ctx), 0, now) {
            Err(e) => Err(e),
            Ok(st) => Ok(TallyState { epoch: epoch_after_tally(st.epoch), ..st }),
        }
    }
}

/// The account at place `k` of the batch holds the gateway that is next in turn, and
/// that gateway is joined.
pub open spec fn in_turn(ctx: TallyWeights, k: int) -> bool {
    &&& ctx.epoch.weights_tallied == 0
    &&& ctx.epoch.tally_index + k < ctx.epoch.active_gateway_count
    &&& ctx.accounts@[k].owned
    &&& ctx.accounts@[k].gateway matches Some(g) && g.status == GatewayStatus::Joined && g.operator
        != Pubkey::zero() && g.operator == ctx.registry.gateways@[place_in(
        ctx.registry,
        ctx.epoch,
        ctx.epoch.tally_index + k,
    )].address
}

/// No gateway that is weighed joined so long ago that the time since is out of range.
pub open spec fn times_valid(ctx: TallyWeights, now: i64) -> bool {
    forall|k: int|
        0 <= k < ctx.accounts@.len() && #[trigger] in_turn(ctx, k) ==> (ctx.accounts@[k].gateway matches Some(g)
            && time_running(g.start_timestamp, now) <= i64::MAX)
}

/// Whether no gateway that is weighed joined so long ago that the time since is out
/// of range.
pub fn times_fit(ctx: &TallyWeights, now: i64) -> (r: bool)
    requires
        ctx.registry.wf(),
        ctx.epoch.active_gateway_count <= 3000,
    ensures
        r == times_valid(*ctx, now),
{
    if ctx.epoch.weights_tallied != 0 {
        return true;
    }
    let places: Vec<usize> = gateway_places(&ctx.registry, &ctx.epoch);
    let mut at: usize = ctx.epoch.tally_index as usize;
    let mut k: usize = 0;
    while k < ctx.accounts.len() && at < places.len()
        invariant
            ctx.registry.wf(),
            ctx.epoch.weights_tallied == 0,
            k <= ctx.accounts@.len(),
            at == ctx.epoch.tally_index + k,
            k == 0 || at <= places@.len(),
            places@.len() == ctx.epoch.active_gateway_count,
            forall|j: int|
                0 <= j < places@.len() ==> (#[trigger] places@[j]) == place_in(ctx.registry, ctx.epoch, j)
                    && places@[j] < 3000,
            forall|j: int|
                0 <= j < k && #[trigger] in_turn(*ctx, j) ==> (ctx.accounts@[j].gateway matches Some(g)
                    && time_running(g.start_timestamp, now) <= i64::MAX),
        decreases ctx.accounts@.len() - k,
    {
        match &ctx.accounts[k].gateway {
            None => {},
            Some(g) => {
                let address = ctx.registry.gateways[places[at]].address;
                if ctx.accounts[k].owned && g.status == GatewayStatus::Joined && g.operator != Pubkey::default()
                    && g.operator == address && now >= g.start_timestamp {
                    if now.checked_sub(g.start_timestamp).is_none() {
                        assert(in_turn(*ctx, k as int));
                        return false;
                    }
                }
            },
        }
        k = k + 1;
        at = at + 1;
    }
    true
}

/// The epoch, the registry and the accounts of a batch while it is tallied.
struct Tally {
    epoch: Epoch,
    registry: GatewayRegistry,
    accounts: Vec<GatewayAccount>,
}

impl View for Tally {
    type V = TallyState;

    closed spec fn view(&self) -> TallyState {
        TallyState { epoch: self.epoch, slots: self.registry.gateways@, accounts: self.accounts@ }
    }
}

/// Passes over the slot `at`.
fn pass_over(current: Tally, at: usize, Ghost(ctx): Ghost<TallyWeights>) -> (r: Tally)
    requires
        at < 3000,
        at == next_place(ctx, current@),
        current.epoch.tally_index < 3000,
        current.registry.wf(),
    ensures
        r@ == passed_over(ctx, current@),
        r.registry == (GatewayRegistry { gateways: r.registry.gateways, ..current.registry }),
{
    let mut current = current;
    let mut slot = current.registry.gateways[at];
    slot.composite_weight = 0;
    current.registry.gateways.set(at, slot);
    current.epoch.tally_index = current.epoch.tally_index + 1;
    current
}

/// Tallies the account at place `k`, whose gateway stands in slot `at`.
fn tally_one(
    settings: &GatewaySettings,
    epoch_settings: &EpochSettings,
    program_id: &Pubkey,
    current: Tally,
    k: usize,
    at: usize,
    now: i64,
    Ghost(ctx): Ghost<TallyWeights>,
) -> (r: Result<Tally, Refusal>)
    requires
        ctx.settings == *settings,
        ctx.epoch_settings == *epoch_settings,
        ctx.program_id == *program_id,
        at < 3000,
        at == next_place(ctx, current@),
        current.epoch.tally_index < 3000,
        current.registry.wf(),
        k < current.accounts@.len(),
        current.accounts@[k as int].owned ==> (current.accounts@[k as int].gateway matches Some(g) ==> (g.status
            == GatewayStatus::Joined && g.operator != Pubkey::zero() && g.operator
            == current.registry.gateways@[at as int].address ==> time_running(g.start_timestamp, now) <= i64::MAX)),
    ensures
        match r {
            Err(e) => tally_account(ctx, current@, k as int, now) == Err::<TallyState, Refusal>(e),
            Ok(next) => {
                &&& tally_account(ctx, current@, k as int, now) == Ok::<TallyState, Refusal>(next@)
                &&& next.registry == (GatewayRegistry {
                    gateways: next.registry.gateways,
                    ..current.registry
                })
            },
        },
{
    let mut current = current;
    if current.registry.gateways[at].address == Pubkey::default() {
        return Ok(pass_over(current, at, Ghost(ctx)));
    }
    if !current.accounts[k].owned {
        return Err(Refusal::Gar(GarError::InvalidGatewayAccount));
    }
    let (weights, counted, delegated) = match &current.accounts[k].gateway {
        None => {
            return Err(Refusal::Gar(GarError::InvalidGatewayAccount));
        },
        Some(gateway) => {
            let expected = match gateway_address(&gateway.operator, program_id) {
                None => {
                    return Err(Refusal::NoProgramAddress);
                },
                Some((expected, _bump)) => expected,
            };
            if current.accounts[k].key != expected {
                return Err(Refusal::Gar(GarError::InvalidGatewayAccount));
            }
            if current.registry.gateways[at].address != gateway.operator {
                return Err(Refusal::Gar(GarError::InvalidGatewayAccount));
            }
            if gateway.status != GatewayStatus::Joined {
                return Ok(pass_over(current, at, Ghost(ctx)));
            }
            let (weights, counted) = weigh_gateway(
                settings,
                epoch_settings,
                current.epoch.epoch_index,
                current.epoch.start_timestamp,
                gateway,
                now,
            );
            (weights, counted, gateway.total_delegated_stake > 0)
        },
    };
    let mut slot = current.registry.gateways[at];
    slot.composite_weight = counted;
    slot.delegated_at_tally = if delegated {
        1
    } else {
        0
    };
    current.registry.gateways.set(at, slot);
    current.epoch.add_composite_weight(counted);
    match &mut current.accounts[k].gateway {
        None => {},
        Some(gateway) => {
            gateway.weights = weights;
        },
    }
    current.epoch.tally_index = current.epoch.tally_index + 1;
    Ok(current)
}

/// Tallies the weights of the gateways in one batch. Call it until the epoch is
/// tallied; the call that completes it returns the event.
pub fn tally_weights(ctx: TallyWeights, now: i64) -> (r: Result<
    (TallyWeights, Option<EpochWeightsTalliedEvent>),
    Refusal,
>)
    requires
        ctx.registry.wf(),
        ctx.epoch.active_gateway_count <= 3000,
        times_valid(ctx, now),
    ensures
        match r {
            Err(e) => tally(ctx, now) == Err::<TallyState, Refusal>(e),
            Ok((after, event)) => {
                &&& tally(ctx, now) == Ok::<TallyState, Refusal>(tally_start(after))
                &&& after == (TallyWeights {
                    epoch: after.epoch,
                    registry: GatewayRegistry { gateways: after.registry.gateways, ..ctx.registry },
                    accounts: after.accounts,
                    ..ctx
                })
                &&& event == if after.epoch.weights_tallied == 1 {
                    Some(
                        EpochWeightsTalliedEvent {
                            epoch_index: ctx.epoch.epoch_index,
                            gateway_count: ctx.epoch.active_gateway_count,
                            total_weight: cap_u64(after.epoch.composite_total()) as u64,
                            timestamp: now,
                        },
                    )
                } else {
                    None
                }
            },
        },
{
    if ctx.epoch.weights_tallied != 0 {
        return Err(Refusal::Gar(GarError::WeightsAlreadyTallied));
    }
    let ghost start = ctx;
    let settings = ctx.settings;
    let epoch_settings = ctx.epoch_settings;
    let program_id = ctx.program_id;
    let active_count: u32 = ctx.epoch.active_gateway_count;
    let count: usize = ctx.accounts.len();
    let mut current = Tally { epoch: ctx.epoch, registry: ctx.registry, accounts: ctx.accounts };
    let places: Vec<usize> = gateway_places(&current.registry, &current.epoch);
    let mut k: usize = 0;
    assert(current@ == tally_start(start));
    while k < count && current.epoch.tally_index < active_count
        invariant
            ctx == start,
            start.epoch.weights_tallied == 0,
            k <= count,
            count == start.accounts@.len(),
            settings == start.settings,
            epoch_settings == start.epoch_settings,
            program_id == start.program_id,
            active_count == start.epoch.active_gateway_count,
            active_count <= 3000,
            times_valid(start, now),
            start.registry.wf(),
            current.registry.wf(),
            current.registry == (GatewayRegistry { gateways: current.registry.gateways, ..start.registry }),
            current.accounts@.len() == count,
            forall|j: int| k <= j < count ==> current.accounts@[j] == start.accounts@[j],
            current.epoch.epoch_index == start.epoch.epoch_index,
            current.epoch.active_gateway_count == start.epoch.active_gateway_count,
            current.epoch.weights_tallied == 0,
            current.epoch.tally_index == start.epoch.tally_index + k,
            forall|i: int|
                0 <= i < 3000 ==> (#[trigger] current.registry.gateways@[i]).address
                    == start.registry.gateways@[i].address,
            places@.len() == active_count,
            forall|j: int|
                0 <= j < places@.len() ==> (#[trigger] places@[j]) == place_in(start.registry, start.epoch, j)
                    && places@[j] < 3000,
            tally_from(start, current@, k as int, now) == tally_from(start, tally_start(start), 0, now),
        decreases count - k,
    {
        assert(current.accounts@[k as int] == start.accounts@[k as int]);
        let at: usize = places[current.epoch.tally_index as usize];
        assert(in_turn(start, k as int) ==> time_running(
            start.accounts@[k as int].gateway->Some_0.start_timestamp,
            now,
        ) <= i64::MAX);
        let r = tally_one(&settings, &epoch_settings, &program_id, current, k, at, now, Ghost(start));
        current = match r {
            Err(e) => {
                return Err(e);
            },
            Ok(next) => next,
        };
        k = k + 1;
    }
    let mut event: Option<EpochWeightsTalliedEvent> = None;
    if current.epoch.tally_index >= active_count {
        current.epoch.weights_tallied = 1;
        event = Some(
            EpochWeightsTalliedEvent {
                epoch_index: current.epoch.epoch_index,
                gateway_count: active_count,
                total_weight: cap_to_u64(current.epoch.total_composite_weight()),
                timestamp: now,
            },
        );
    }
    Ok(
        (
            TallyWeights {
                settings,
                epoch_settings,
                epoch: current.epoch,
                registry: current.registry,
                accounts: current.accounts,
                program_id,
            },
            event,
        ),
    )
}

/// The slots of the epoch's gateways as a tally has left them, in their order.
pub open spec fn slots_now(ctx: TallyWeights, slots: Seq<GatewaySlot>) -> Seq<GatewaySlot> {
    Seq::new(
        ctx.epoch.active_gateway_count as nat,
        |k: int| slots[place_in(ctx.registry, ctx.epoch, k)],
    )
}

/// The epoch's sum is the sum of the weights of the gateways tallied so far.
pub open spec fn sum_is_tallied(ctx: TallyWeights, st: TallyState) -> bool {
    st.epoch.composite_total() == weight_sum(slots_now(ctx, st.slots), st.epoch.tally_index as int)
}

/// Only weights have changed, if anything.
pub open spec fn times_unchanged(ctx: TallyWeights, st: TallyState) -> bool {
    &&& st.slots.len() == ctx.registry.gateways@.len()
    &&& forall|i: int|
        0 <= i < st.slots.len() ==> (#[trigger] st.slots[i]).start_timestamp
            == ctx.registry.gateways@[i].start_timestamp
}

proof fn lemma_sum_unchanged(before: Seq<GatewaySlot>, after: Seq<GatewaySlot>, n: int)
    requires
        forall|i: int| 0 <= i < n ==> after[i] == before[i],
    ensures
        weight_sum(after, n) == weight_sum(before, n),
    decreases n,
{
    if n > 0 {
        lemma_sum_unchanged(before, after, n - 1);
    }
}

proof fn lemma_place_in_range(ctx: TallyWeights, st: TallyState)
    requires
        ctx.registry.wf(),
        st.epoch.tally_index < ctx.epoch.active_gateway_count <= 3000,
    ensures
        0 <= next_place(ctx, st) < 3000,
{
    places_are_distinct(
        ctx.registry.gateways@,
        ctx.registry.count as int,
        ctx.epoch.start_timestamp as int,
        ctx.epoch.active_gateway_count as int,
        st.epoch.tally_index as int,
        st.epoch.tally_index as int,
    );
}

proof fn lemma_account_keeps_sum(ctx: TallyWeights, st: TallyState, k: int, now: i64)
    requires
        ctx.registry.wf(),
        ctx.epoch.active_gateway_count <= 3000,
        st.epoch.tally_index < ctx.epoch.active_gateway_count,
        sum_is_tallied(ctx, st),
        times_unchanged(ctx, st),
        tally_account(ctx, st, k, now) is Ok,
    ensures
        ({
            let next = tally_account(ctx, st, k, now)->Ok_0;
            &&& sum_is_tallied(ctx, next)
            &&& times_unchanged(ctx, next)
            &&& next.epoch.tally_index == st.epoch.tally_index + 1
        }),
{
    let next = tally_account(ctx, st, k, now)->Ok_0;
    let at = st.epoch.tally_index as int;
    let before = slots_now(ctx, st.slots);
    let after = slots_now(ctx, next.slots);
    assert forall|j: int| 0 <= j <= at implies after[j] == (if j == at {
        next.slots[next_place(ctx, st)]
    } else {
        before[j]
    }) by {
        places_are_distinct(
            ctx.registry.gateways@,
            ctx.registry.count as int,
            ctx.epoch.start_timestamp as int,
            ctx.epoch.active_gateway_count as int,
            j,
            at,
        );
    }
    lemma_sum_unchanged(before, after, at);
    lemma_weight_sum_bounds(before, at, at);
    lemma_place_in_range(ctx, st);
    assert(after[at] == next.slots[next_place(ctx, st)]);
}

proof fn lemma_batch_keeps_sum(ctx: TallyWeights, st: TallyState, k: int, now: i64)
    requires
        ctx.registry.wf(),
        ctx.epoch.active_gateway_count <= 3000,
        sum_is_tallied(ctx, st),
        times_unchanged(ctx, st),
        tally_from(ctx, st, k, now) is Ok,
    ensures
        sum_is_tallied(ctx, tally_from(ctx, st, k, now)->Ok_0),
        times_unchanged(ctx, tally_from(ctx, st, k, now)->Ok_0),
    decreases ctx.accounts@.len() - k,
{
    if k < ctx.accounts@.len() && st.epoch.tally_index < ctx.epoch.active_gateway_count {
        lemma_account_keeps_sum(ctx, st, k, now);
        lemma_batch_keeps_sum(ctx, tally_account(ctx, st, k, now)->Ok_0, k + 1, now);
    }
}

/// Every batch keeps the epoch's sum equal to the sum of the weights of the gateways
/// tallied so far, and leaves every gateway its place, so that the next batch, and
/// the draw of the observers, find the same gateways in the same order.
pub proof fn tally_keeps_sum(ctx: TallyWeights, now: i64, after: GatewayRegistry)
    requires
        ctx.registry.wf(),
        ctx.epoch.active_gateway_count <= 3000,
        ctx.epoch.tally_index <= ctx.epoch.active_gateway_count,
        ctx.epoch.composite_total() == weight_sum(
            slots_in(ctx.registry, ctx.epoch),
            ctx.epoch.tally_index as int,
        ),
        tally(ctx, now) is Ok,
        after.gateways@ == tally(ctx, now)->Ok_0.slots,
        after.count == ctx.registry.count,
    ensures
        ({
            let epoch = tally(ctx, now)->Ok_0.epoch;
            &&& forall|k: int|
                0 <= k < ctx.epoch.active_gateway_count ==> #[trigger] place_in(after, epoch, k) == place_in(
                    ctx.registry,
                    ctx.epoch,
                    k,
                )
            &&& epoch.composite_total() == weight_sum(slots_in(after, epoch), epoch.tally_index as int)
        }),
{
    let start = tally_start(ctx);
    assert(slots_now(ctx, start.slots) =~= slots_in(ctx.registry, ctx.epoch));
    lemma_batch_keeps_sum(ctx, start, 0, now);
    lemma_tally_progress(ctx, start, 0, now);
    let end = tally_from(ctx, start, 0, now)->Ok_0;
    let epoch = tally(ctx, now)->Ok_0.epoch;
    assert forall|k: int| 0 <= k < ctx.epoch.active_gateway_count implies #[trigger] place_in(after, epoch, k)
        == place_in(ctx.registry, ctx.epoch, k) by {
        places_rest_on_times_alone(
            ctx.registry.gateways@,
            after.gateways@,
            ctx.registry.count as int,
            ctx.epoch.start_timestamp as int,
            ctx.epoch.active_gateway_count as int,
            k,
        );
    }
    assert(slots_now(ctx, end.slots) =~= slots_in(after, epoch));
}

/// A gateway that is not joined, or joined after the epoch started, gets no weight,
/// so that it is never drawn and shares in no reward.
pub proof fn absent_gateway_gets_no_weight(ctx: TallyWeights, st: TallyState, k: int, now: i64)
    requires
        ctx.registry.wf(),
        ctx.epoch.active_gateway_count <= 3000,
        st.slots.len() == 3000,
        st.epoch.tally_index < ctx.epoch.active_gateway_count,
        tally_account(ctx, st, k, now) is Ok,
        st.accounts[k].gateway matches Some(g) && (g.status != GatewayStatus::Joined || g.start_timestamp
            > st.epoch.start_timestamp),
    ensures
        tally_account(ctx, st, k, now)->Ok_0.slots[next_place(ctx, st)].composite_weight == 0,
{
    lemma_place_in_range(ctx, st);
}

proof fn lemma_tally_progress(ctx: TallyWeights, st: TallyState, k: int, now: i64)
    requires
        0 <= k <= ctx.accounts@.len(),
        st.epoch.tally_index <= ctx.epoch.active_gateway_count,
        st.epoch.active_gateway_count == ctx.epoch.active_gateway_count,
        st.epoch.start_timestamp == ctx.epoch.start_timestamp,
        st.epoch.weights_tallied == ctx.epoch.weights_tallied,
        tally_from(ctx, st, k, now) is Ok,
    ensures
        ({
            let end = tally_from(ctx, st, k, now)->Ok_0;
            &&& end.epoch.tally_index == lesser(
                st.epoch.tally_index + (ctx.accounts@.len() - k),
                ctx.epoch.active_gateway_count as int,
            )
            &&& end.epoch.active_gateway_count == ctx.epoch.active_gateway_count
            &&& end.epoch.start_timestamp == ctx.epoch.start_timestamp
            &&& end.epoch.weights_tallied == ctx.epoch.weights_tallied
        }),
    decreases ctx.accounts@.len() - k,
{
    if k < ctx.accounts@.len() && st.epoch.tally_index < ctx.epoch.active_gateway_count {
        lemma_tally_progress(ctx, tally_account(ctx, st, k, now)->Ok_0, k + 1, now);
    }
}

/// Every account of a batch stands for the next gateway of the epoch: the batch
/// goes as far as it has accounts, and the epoch is tallied exactly when all its
/// gateways have been gone through. After that it is not tallied again.
pub proof fn tally_goes_through_once(ctx: TallyWeights, now: i64, again: TallyWeights, later: i64)
    requires
        ctx.epoch.tally_index <= ctx.epoch.active_gateway_count,
        tally(ctx, now) is Ok,
        again.epoch == tally(ctx, now)->Ok_0.epoch,
    ensures
        ({
            let end = tally(ctx, now)->Ok_0.epoch;
            &&& end.tally_index == lesser(
                ctx.epoch.tally_index + ctx.accounts@.len(),
                ctx.epoch.active_gateway_count as int,
            )
            &&& (end.weights_tallied == 1) == (end.tally_index == ctx.epoch.active_gateway_count)
            &&& end.weights_tallied == 1 ==> tally(again, later) is Err
        }),
{
    lemma_tally_progress(ctx, tally_start(ctx), 0, now);
}

/// The weights of a gateway in an epoch are those of its whole stake, of its time since
/// joining and of its record, under the number of the epoch. A gateway that joined after
/// the epoch started counts for nothing.
pub proof fn gateway_is_weighed_by_its_own_stake_time_and_record(
    settings: GatewaySettings,
    epoch_settings: EpochSettings,
    epoch_index: u64,
    epoch_start: i64,
    gateway: Gateway,
    now: i64,
    total: u64,
    w: GatewayWeights,
    r: (GatewayWeights, u64),
)
    requires
        time_running(gateway.start_timestamp, now) <= i64::MAX,
        call_ensures(Gateway::total_stake, (&gateway,), total),
        call_ensures(
            GatewayWeights::compute,
            (
                total,
                settings.min_operator_stake,
                gateway.start_timestamp,
                now,
                epoch_settings.tenure_weight_duration,
                epoch_settings.max_tenure_weight,
                &gateway.stats,
                1_000_000,
            ),
            w,
        ),
        call_ensures(weigh_gateway, (&settings, &epoch_settings, epoch_index, epoch_start, &gateway, now), r),
    ensures
        r.0 == (GatewayWeights { weights_epoch: epoch_index, ..w }),
        gateway.start_timestamp > epoch_start ==> r.1 == 0,
        gateway.start_timestamp <= epoch_start ==> r.1 == w.composite_weight,
{
}

proof fn lemma_tally_spares(ctx: TallyWeights, st: TallyState, k: int, now: i64, j: int, i: int)
    requires
        ctx.registry.wf(),
        ctx.epoch.active_gateway_count <= 3000,
        0 <= k <= ctx.accounts@.len(),
        st.accounts.len() == ctx.accounts@.len(),
        st.slots.len() == 3000,
        tally_from(ctx, st, k, now) is Ok,
        0 <= j < st.epoch.tally_index,
        j < ctx.epoch.active_gateway_count,
        0 <= i < k,
    ensures
        ({
            let end = tally_from(ctx, st, k, now)->Ok_0;
            &&& end.slots[place_in(ctx.registry, ctx.epoch, j)] == st.slots[place_in(ctx.registry, ctx.epoch, j)]
            &&& end.accounts[i] == st.accounts[i]
        }),
    decreases ctx.accounts@.len() - k,
{
    if k < ctx.accounts@.len() && st.epoch.tally_index < ctx.epoch.active_gateway_count {
        places_are_distinct(
            ctx.registry.gateways@,
            ctx.registry.count as int,
            ctx.epoch.start_timestamp as int,
            ctx.epoch.active_gateway_count as int,
            j,
            st.epoch.tally_index as int,
        );
        lemma_tally_spares(ctx, tally_account(ctx, st, k, now)->Ok_0, k + 1, now, j, i);
    }
}

/// Nothing has been tallied yet of the gateways from the next one on.
spec fn untouched_from(ctx: TallyWeights, st: TallyState, k: int) -> bool {
    &&& st.slots.len() == 3000
    &&& st.accounts.len() == ctx.accounts@.len()
    &&& st.epoch.tally_index == ctx.epoch.tally_index + k
    &&& st.epoch.epoch_index == ctx.epoch.epoch_index
    &&& st.epoch.start_timestamp == ctx.epoch.start_timestamp
    &&& forall|i: int| k <= i < st.accounts.len() ==> st.accounts[i] == ctx.accounts@[i]
    &&& forall|i: int|
        ctx.epoch.tally_index + k <= i < ctx.epoch.active_gateway_count ==> st.slots[#[trigger] place_in(
            ctx.registry,
            ctx.epoch,
            i,
        )] == ctx.registry.gateways@[place_in(ctx.registry, ctx.epoch, i)]
}

proof fn lemma_tally_each(ctx: TallyWeights, st: TallyState, k: int, now: i64, j: int)
    requires
        ctx.registry.wf(),
        ctx.epoch.active_gateway_count <= 3000,
        0 <= k <= j < ctx.accounts@.len(),
        ctx.epoch.tally_index + j < ctx.epoch.active_gateway_count,
        untouched_from(ctx, st, k),
        tally_from(ctx, st, k, now) is Ok,
    ensures
        ({
            let end = tally_from(ctx, st, k, now)->Ok_0;
            let at = place_in(ctx.registry, ctx.epoch, ctx.epoch.tally_index + j);
            let slot = ctx.registry.gateways@[at];
            let account = ctx.accounts@[j];
            let nothing = GatewaySlot { composite_weight: 0, ..slot };
            if slot.address == Pubkey::zero() {
                end.slots[at] == nothing && end.accounts[j] == account
            } else {
                &&& account.owned
                &&& account.gateway is Some
                &&& account.gateway->Some_0.operator == slot.address
                &&& gateway_pda(account.gateway->Some_0.operator, ctx.program_id) is Some
                &&& gateway_pda(account.gateway->Some_0.operator, ctx.program_id)->Some_0.0 == account.key
                &&& account.gateway->Some_0.status != GatewayStatus::Joined ==> end.slots[at] == nothing
                    && end.accounts[j] == account
                &&& account.gateway->Some_0.status == GatewayStatus::Joined ==> {
                    let g = account.gateway->Some_0;
                    let w = weights_now(ctx.settings, ctx.epoch_settings, ctx.epoch.epoch_index, g, now);
                    &&& end.accounts[j] == (GatewayAccount {
                        gateway: Some(Gateway { weights: w, ..g }),
                        ..account
                    })
                    &&& end.slots[at] == (GatewaySlot {
                        composite_weight: counted_weight(w, g, ctx.epoch.start_timestamp),
                        delegated_at_tally: if g.total_delegated_stake > 0 {
                            1
                        } else {
                            0
                        },
                        ..slot
                    })
                }
            }
        }),
    decreases ctx.accounts@.len() - k,
{
    let t0 = ctx.epoch.tally_index as int;
    lemma_place_in_range(ctx, st);
    let next = tally_account(ctx, st, k, now)->Ok_0;
    assert forall|i: int| t0 + k + 1 <= i < ctx.epoch.active_gateway_count implies next.slots[#[trigger] place_in(
        ctx.registry,
        ctx.epoch,
        i,
    )] == ctx.registry.gateways@[place_in(ctx.registry, ctx.epoch, i)] by {
        places_are_distinct(
            ctx.registry.gateways@,
            ctx.registry.count as int,
            ctx.epoch.start_timestamp as int,
            ctx.epoch.active_gateway_count as int,
            i,
            t0 + k,
        );
    }
    if k < j {
        lemma_tally_each(ctx, next, k + 1, now, j);
    } else {
        assert(place_in(ctx.registry, ctx.epoch, t0 + k) == next_place(ctx, st));
        lemma_tally_spares(ctx, next, k + 1, now, t0 + j, j);
    }
}

/// An epoch is tallied once. Each account of a batch is the next gateway of the epoch. A
/// joined gateway has its weights written to its account and the weight that counts to
/// its slot, with whether it carries delegated stake; one that has left, or a cleared
/// slot, has no weight. The last batch marks the epoch and says what the weights come to.
pub proof fn tally_writes_each_gateways_weight(
    ctx: TallyWeights,
    now: i64,
    j: int,
    w: (GatewayWeights, u64),
    total: u128,
    r: Result<(TallyWeights, Option<EpochWeightsTalliedEvent>), Refusal>,
)
    requires
        ctx.registry.wf(),
        ctx.epoch.active_gateway_count <= 3000,
        ctx.epoch.tally_index <= ctx.epoch.active_gateway_count,
        call_ensures(tally_weights, (ctx, now), r),
        0 <= j < ctx.accounts@.len(),
        ctx.epoch.tally_index + j < ctx.epoch.active_gateway_count,
        ctx.accounts@[j].gateway is Some ==> call_ensures(
            weigh_gateway,
            (
                &ctx.settings,
                &ctx.epoch_settings,
                ctx.epoch.epoch_index,
                ctx.epoch.start_timestamp,
                &ctx.accounts@[j].gateway->Some_0,
                now,
            ),
            w,
        ),
        r is Ok ==> call_ensures(Epoch::total_composite_weight, (&r->Ok_0.0.epoch,), total),
    ensures
        ctx.epoch.weights_tallied != 0 ==> r == Err::<(TallyWeights, Option<EpochWeightsTalliedEvent>), Refusal>(
            Refusal::Gar(GarError::WeightsAlreadyTallied),
        ),
        r matches Ok((after, event)) ==> {
            let at = place_in(ctx.registry, ctx.epoch, ctx.epoch.tally_index + j);
            let (slot, slot2) = (ctx.registry.gateways@[at], after.registry.gateways@[at]);
            let (account, account2) = (ctx.accounts@[j], after.accounts@[j]);
            let blank = slot.address == Pubkey::zero();
            &&& ctx.epoch.weights_tallied == 0
            &&& slot2.address == slot.address && slot2.start_timestamp == slot.start_timestamp && slot2.status
                == slot.status
            &&& blank ==> slot2.composite_weight == 0 && account2 == account
            &&& !blank ==> {
                let g = account.gateway->Some_0;
                &&& account.owned
                &&& account.gateway is Some
                &&& g.operator == slot.address
                &&& gateway_pda(g.operator, ctx.program_id) is Some
                &&& gateway_pda(g.operator, ctx.program_id)->Some_0.0 == account.key
                &&& g.status != GatewayStatus::Joined ==> slot2.composite_weight == 0 && account2 == account
                &&& g.status == GatewayStatus::Joined ==> {
                    &&& slot2.composite_weight == w.1
                    &&& slot2.delegated_at_tally == 1 <==> g.total_delegated_stake > 0
                    &&& slot2.delegated_at_tally == 0 <==> g.total_delegated_stake == 0
                    &&& account2.gateway == Some(Gateway { weights: w.0, ..g })
                }
            }
            &&& after.registry.count == ctx.registry.count
            &&& after.settings == ctx.settings
            &&& after.epoch_settings == ctx.epoch_settings
            &&& ctx.epoch.tally_index + ctx.accounts@.len() <= ctx.epoch.active_gateway_count
                ==> after.epoch.tally_index == ctx.epoch.tally_index + ctx.accounts@.len()
            &&& ctx.epoch.tally_index + ctx.accounts@.len() >= ctx.epoch.active_gateway_count
                ==> after.epoch.tally_index == ctx.epoch.active_gateway_count
            &&& after.epoch.weights_tallied == 1 <==> after.epoch.tally_index == ctx.epoch.active_gateway_count
            &&& after.epoch.weights_tallied == 0 <==> after.epoch.tally_index < ctx.epoch.active_gateway_count
            &&& event is Some <==> after.epoch.weights_tallied == 1
            &&& event matches Some(e) ==> {
                &&& e.epoch_index == ctx.epoch.epoch_index
                &&& e.gateway_count == ctx.epoch.active_gateway_count
                &&& total <= u64::MAX ==> e.total_weight == total
                &&& total > u64::MAX ==> e.total_weight == u64::MAX
                &&& e.timestamp == now
            }
        },
{
    if r is Ok {
        let st = tally_start(ctx);
        lemma_tally_each(ctx, st, 0, now, j);
        lemma_tally_progress(ctx, st, 0, now);
    }
}

/// The sum that an epoch keeps while it is tallied is the sum of the weights in the slots
/// of the gateways gone through so far, batch after batch.
pub proof fn tally_sums_up_the_slots(
    ctx: TallyWeights,
    now: i64,
    done: (TallyWeights, Option<EpochWeightsTalliedEvent>),
    before: Vec<GatewaySlot>,
    after: Vec<GatewaySlot>,
    sum: u128,
    sum2: u128,
)
    requires
        ctx.registry.wf(),
        ctx.epoch.active_gateway_count <= 3000,
        ctx.epoch.tally_index <= ctx.epoch.active_gateway_count,
        call_ensures(tally_weights, (ctx, now), Ok::<_, Refusal>(done)),
        call_ensures(gateway_slots, (&ctx.registry, &ctx.epoch), before),
        call_ensures(gateway_slots, (&done.0.registry, &done.0.epoch), after),
        call_ensures(Epoch::total_composite_weight, (&ctx.epoch,), sum),
        call_ensures(Epoch::total_composite_weight, (&done.0.epoch,), sum2),
        sum == weight_total(before@.take(ctx.epoch.tally_index as int)),
    ensures
        sum2 == weight_total(after@.take(done.0.epoch.tally_index as int)),
{
    let (t, t2) = (ctx.epoch.tally_index as int, done.0.epoch.tally_index as int);
    lemma_sum_is_total(before@, t);
    lemma_tally_progress(ctx, tally_start(ctx), 0, now);
    tally_keeps_sum(ctx, now, done.0.registry);
    lemma_sum_is_total(after@, t2);
}

/// The times are in range unless some account in its turn, of a joined gateway, started so
/// long ago that the time since does not fit.
pub proof fn times_are_checked_for_all_in_turn(ctx: TallyWeights, now: i64, slots: Vec<GatewaySlot>, r: bool)
    requires
        ctx.registry.wf(),
        ctx.epoch.active_gateway_count <= 3000,
        call_ensures(gateway_slots, (&ctx.registry, &ctx.epoch), slots),
        call_ensures(times_fit, (&ctx, now), r),
    ensures
        ctx.epoch.weights_tallied != 0 ==> r,
        ctx.epoch.weights_tallied == 0 ==> (r <==> forall|k: int|
            0 <= k < ctx.accounts@.len() && ctx.epoch.tally_index + k < slots@.len() && (
            #[trigger] ctx.accounts@[k]).owned && ctx.accounts@[k].gateway is Some
                && ctx.accounts@[k].gateway->Some_0.status == GatewayStatus::Joined
                && ctx.accounts@[k].gateway->Some_0.operator != Pubkey::zero()
                && ctx.accounts@[k].gateway->Some_0.operator == slots@[ctx.epoch.tally_index + k].address
                && now >= ctx.accounts@[k].gateway->Some_0.start_timestamp ==> now
                - ctx.accounts@[k].gateway->Some_0.start_timestamp <= i64::MAX),
{
    if ctx.epoch.weights_tallied == 0 {
        if r {
            assert forall|k: int|
                0 <= k < ctx.accounts@.len() && ctx.epoch.tally_index + k < slots@.len() && (
                #[trigger] ctx.accounts@[k]).owned && ctx.accounts@[k].gateway is Some
                    && ctx.accounts@[k].gateway->Some_0.status == GatewayStatus::Joined
                    && ctx.accounts@[k].gateway->Some_0.operator != Pubkey::zero()
                    && ctx.accounts@[k].gateway->Some_0.operator == slots@[ctx.epoch.tally_index + k].address && now
                    >= ctx.accounts@[k].gateway->Some_0.start_timestamp implies now
                - ctx.accounts@[k].gateway->Some_0.start_timestamp <= i64::MAX by {
                assert(in_turn(ctx, k));
            }
        } else {
            let k = choose|k: int|
                0 <= k < ctx.accounts@.len() && #[trigger] in_turn(ctx, k) && !(ctx.accounts@[k].gateway matches Some(g)
                    && time_running(g.start_timestamp, now) <= i64::MAX);
            assert(ctx.accounts@[k].owned);
        }
    }
}

} // verus!
