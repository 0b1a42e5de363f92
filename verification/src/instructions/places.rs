//! Which slots of the registry the gateways of an epoch stand in.
//!
//! An epoch counts the gateways that joined by its start, and numbers them from
//! zero. A gateway joins at the end of the registry, so the counted slots mostly come
//! first, and gateway `k` stands in slot `k`. A slot that is moved forward when a
//! gateway is gone can be that of a gateway that joined late. It then takes the
//! place of none: a counted slot from behind stands in for it.

use vstd::prelude::*;
use crate::state::accounts::{GatewayRegistry, GatewaySlot};
use crate::state::epoch::Epoch;

verus! {

/// How many of the first `n` slots are those of gateways that joined by `start`.
pub open spec fn on_time_count(slots: Seq<GatewaySlot>, n: int, start: int) -> int
    decreases n,
{
    if n <= 0 {
        0
    } else {
        on_time_count(slots, n - 1, start) + if slots[n - 1].start_timestamp <= start {
            1int
        } else {
            0
        }
    }
}

/// Of the slots from `from` on, that of the gateway number `n` that joined by `start`.
pub open spec fn nth_on_time(slots: Seq<GatewaySlot>, count: int, start: int, from: int, n: int) -> Option<int>
    decreases count - from,
{
    if from >= count {
        None
    } else if slots[from].start_timestamp > start {
        nth_on_time(slots, count, start, from + 1, n)
    } else if n <= 0 {
        Some(from)
    } else {
        nth_on_time(slots, count, start, from + 1, n - 1)
    }
}

/// The slot of gateway `k` of an epoch with `active` gateways: slot `k`, unless that
/// is late. The late slots before `active` are stood in for by the counted slots from
/// `active` on, in their order. Where none is left, a late slot stays.
pub open spec fn place_of(slots: Seq<GatewaySlot>, count: int, start: int, active: int, k: int) -> int {
    if slots[k].start_timestamp <= start {
        k
    } else {
        match nth_on_time(slots, count, start, active, k - on_time_count(slots, k, start)) {
            Some(i) => i,
            None => k,
        }
    }
}

/// The slot of gateway `k` of an epoch.
pub open spec fn place_in(registry: GatewayRegistry, epoch: Epoch, k: int) -> int {
    place_of(
        registry.gateways@,
        registry.count as int,
        epoch.start_timestamp as int,
        epoch.active_gateway_count as int,
        k,
    )
}

/// The slots of the gateways of an epoch, in the order of the gateways.
pub open spec fn slots_in(registry: GatewayRegistry, epoch: Epoch) -> Seq<GatewaySlot> {
    Seq::new(
        epoch.active_gateway_count as nat,
        |k: int| registry.gateways@[place_in(registry, epoch, k)],
    )
}

/// Counts the gateways that joined by `start`.
pub fn count_on_time(registry: &GatewayRegistry, start: i64) -> (r: u32)
    requires
        registry.wf(),
    ensures
        r == on_time_count(registry.gateways@, registry.count as int, start as int),
        r <= registry.count,
{
    let mut on_time: u32 = 0;
    let mut i: u32 = 0;
    while i < registry.count
        invariant
            registry.wf(),
            i <= registry.count,
            on_time <= i,
            on_time == on_time_count(registry.gateways@, i as int, start as int),
        decreases registry.count - i,
    {
        if registry.gateways[i as usize].start_timestamp <= start {
            on_time = on_time + 1;
        }
        i = i + 1;
    }
    on_time
}

proof fn lemma_count_grows(slots: Seq<GatewaySlot>, a: int, b: int, start: int)
    requires
        0 <= a <= b,
    ensures
        0 <= on_time_count(slots, b, start) - on_time_count(slots, a, start) <= b - a,
        a < b && slots[a].start_timestamp > start ==> on_time_count(slots, b, start) - on_time_count(slots, a, start)
            < b - a,
        a < b && slots[a].start_timestamp <= start ==> on_time_count(slots, b, start) > on_time_count(
            slots,
            a,
            start,
        ),
    decreases b - a,
{
    if a < b {
        lemma_count_grows(slots, a, b - 1, start);
    }
}

proof fn lemma_nth_found(slots: Seq<GatewaySlot>, count: int, start: int, from: int, n: int)
    requires
        0 <= from,
        0 <= n,
    ensures
        nth_on_time(slots, count, start, from, n) matches Some(i) ==> {
            &&& from <= i < count
            &&& slots[i].start_timestamp <= start
            &&& on_time_count(slots, i, start) - on_time_count(slots, from, start) == n
        },
        from <= count && n < on_time_count(slots, count, start) - on_time_count(slots, from, start)
            ==> nth_on_time(slots, count, start, from, n) is Some,
    decreases count - from,
{
    if from < count {
        if slots[from].start_timestamp > start {
            lemma_nth_found(slots, count, start, from + 1, n);
        } else if n > 0 {
            lemma_nth_found(slots, count, start, from + 1, n - 1);
        }
    }
}

/// A slot on time is found by the number of such slots before it.
proof fn lemma_nth_finds(slots: Seq<GatewaySlot>, count: int, start: int, from: int, i: int)
    requires
        0 <= from <= i < count,
        slots[i].start_timestamp <= start,
    ensures
        nth_on_time(slots, count, start, from, on_time_count(slots, i, start) - on_time_count(slots, from, start))
            == Some(i),
    decreases i - from,
{
    lemma_count_grows(slots, from, i, start);
    if from < i {
        lemma_nth_finds(slots, count, start, from + 1, i);
    }
}

/// Finds the late slot with `rank` late slots before it.
proof fn lemma_late_slot(slots: Seq<GatewaySlot>, n: int, start: int, rank: int) -> (k: int)
    requires
        0 <= n,
        0 <= rank < n - on_time_count(slots, n, start),
    ensures
        0 <= k < n,
        slots[k].start_timestamp > start,
        k - on_time_count(slots, k, start) == rank,
    decreases n,
{
    if slots[n - 1].start_timestamp > start && rank == n - 1 - on_time_count(slots, n - 1, start) {
        n - 1
    } else {
        lemma_late_slot(slots, n - 1, start, rank)
    }
}

/// The places lie among the slots, and no two gateways of an epoch share one.
pub proof fn places_are_distinct(slots: Seq<GatewaySlot>, count: int, start: int, active: int, j: int, k: int)
    requires
        0 <= count <= slots.len(),
        0 <= active <= slots.len(),
        0 <= j < active,
        0 <= k < active,
    ensures
        0 <= place_of(slots, count, start, active, j) < slots.len(),
        0 <= place_of(slots, count, start, active, k) < slots.len(),
        j != k ==> place_of(slots, count, start, active, j) != place_of(slots, count, start, active, k),
{
    let rj = j - on_time_count(slots, j, start);
    let rk = k - on_time_count(slots, k, start);
    lemma_count_grows(slots, 0, j, start);
    lemma_count_grows(slots, 0, k, start);
    lemma_nth_found(slots, count, start, active, rj);
    lemma_nth_found(slots, count, start, active, rk);
    if j < k {
        lemma_count_grows(slots, j, k, start);
    } else {
        lemma_count_grows(slots, k, j, start);
    }
}

/// Every slot on time is the place of a gateway, as long as no more slots are on time
/// than the epoch has gateways.
pub proof fn every_slot_on_time_has_a_place(slots: Seq<GatewaySlot>, count: int, start: int, active: int, i: int)
    requires
        0 <= i < count,
        slots[i].start_timestamp <= start,
        on_time_count(slots, count, start) <= active,
    ensures
        exists|k: int| 0 <= k < active && #[trigger] place_of(slots, count, start, active, k) == i,
{
    lemma_count_grows(slots, 0, count, start);
    if i < active {
        assert(place_of(slots, count, start, active, i) == i);
    } else {
        lemma_count_grows(slots, active, i, start);
        lemma_count_grows(slots, i, count, start);
        lemma_nth_finds(slots, count, start, active, i);
        let k = lemma_late_slot(
            slots,
            active,
            start,
            on_time_count(slots, i, start) - on_time_count(slots, active, start),
        );
        assert(place_of(slots, count, start, active, k) == i);
    }
}

/// Every gateway of an epoch stands in a slot on time, where the epoch has as many
/// gateways as there are such slots.
pub proof fn places_are_on_time(slots: Seq<GatewaySlot>, count: int, start: int, active: int, k: int)
    requires
        0 <= count,
        active == on_time_count(slots, count, start),
        0 <= k < active,
    ensures
        active <= count,
        0 <= place_of(slots, count, start, active, k) < count,
        slots[place_of(slots, count, start, active, k)].start_timestamp <= start,
{
    lemma_count_grows(slots, 0, count, start);
    lemma_count_grows(slots, active, count, start);
    lemma_count_grows(slots, 0, k, start);
    lemma_count_grows(slots, k, active, start);
    lemma_nth_found(slots, count, start, active, k - on_time_count(slots, k, start));
}

proof fn lemma_count_after_move(
    before: Seq<GatewaySlot>,
    after: Seq<GatewaySlot>,
    n: int,
    last: int,
    index: int,
    start: int,
)
    requires
        0 <= n <= last,
        0 <= index < last,
        after[index] == before[last],
        forall|i: int| 0 <= i < last && i != index ==> #[trigger] after[i] == before[i],
    ensures
        on_time_count(after, n, start) <= on_time_count(before, n, start) + if index < n && before[last].start_timestamp
            <= start {
            1int
        } else {
            0
        },
    decreases n,
{
    if n > 0 {
        lemma_count_after_move(before, after, n - 1, last, index, start);
    }
}

/// A slot that the last one moves into leaves no more slots on time than before, so
/// that each still has a place.
pub proof fn lemma_moving_keeps_slots_placed(
    before: Seq<GatewaySlot>,
    after: Seq<GatewaySlot>,
    count: int,
    index: int,
    start: int,
    active: int,
    i: int,
)
    requires
        0 <= index < count,
        index != count - 1 ==> after[index] == before[count - 1],
        forall|j: int| 0 <= j < count - 1 && j != index ==> #[trigger] after[j] == before[j],
        on_time_count(before, count, start) <= active,
        0 <= i < count - 1,
        after[i].start_timestamp <= start,
    ensures
        on_time_count(after, count - 1, start) <= active,
        exists|k: int| 0 <= k < active && #[trigger] place_of(after, count - 1, start, active, k) == i,
{
    if index != count - 1 {
        lemma_count_after_move(before, after, count - 1, count - 1, index, start);
    } else {
        lemma_same_count(before, after, count - 1, start);
    }
    every_slot_on_time_has_a_place(after, count - 1, start, active, i);
}

/// Where none of the first slots is late, they are the places of the gateways.
pub proof fn places_come_first_unless_late(registry: GatewayRegistry, epoch: Epoch)
    requires
        registry.wf(),
        epoch.active_gateway_count <= 3000,
        forall|k: int|
            0 <= k < epoch.active_gateway_count ==> (#[trigger] registry.gateways@[k]).start_timestamp
                <= epoch.start_timestamp,
    ensures
        slots_in(registry, epoch) == registry.gateways@.take(epoch.active_gateway_count as int),
{
    assert(slots_in(registry, epoch) =~= registry.gateways@.take(epoch.active_gateway_count as int));
}

proof fn lemma_same_count(before: Seq<GatewaySlot>, after: Seq<GatewaySlot>, n: int, start: int)
    requires
        forall|i: int| 0 <= i < n ==> before[i].start_timestamp == (#[trigger] after[i]).start_timestamp,
    ensures
        on_time_count(after, n, start) == on_time_count(before, n, start),
    decreases n,
{
    if n > 0 {
        lemma_same_count(before, after, n - 1, start);
        assert(after[n - 1].start_timestamp == before[n - 1].start_timestamp);
    }
}

/// Slots added behind change nothing of what was found before them.
proof fn lemma_same_nth(
    before: Seq<GatewaySlot>,
    after: Seq<GatewaySlot>,
    count: int,
    longer: int,
    start: int,
    from: int,
    n: int,
)
    requires
        0 <= from,
        count <= longer,
        forall|i: int| 0 <= i < count ==> before[i].start_timestamp == (#[trigger] after[i]).start_timestamp,
        count == longer || nth_on_time(before, count, start, from, n) is Some,
    ensures
        nth_on_time(after, longer, start, from, n) == nth_on_time(before, count, start, from, n),
    decreases count - from,
{
    if from < count {
        assert(after[from].start_timestamp == before[from].start_timestamp);
        if before[from].start_timestamp > start {
            lemma_same_nth(before, after, count, longer, start, from + 1, n);
        } else if n > 0 {
            lemma_same_nth(before, after, count, longer, start, from + 1, n - 1);
        }
    }
}

/// Places rest on the times of joining alone: weights and states do not move them.
pub proof fn places_rest_on_times_alone(
    before: Seq<GatewaySlot>,
    after: Seq<GatewaySlot>,
    count: int,
    start: int,
    active: int,
    k: int,
)
    requires
        0 <= count <= before.len(),
        0 <= k < active <= before.len(),
        after.len() == before.len(),
        forall|i: int| 0 <= i < before.len() ==> before[i].start_timestamp == (#[trigger] after[i]).start_timestamp,
    ensures
        place_of(after, count, start, active, k) == place_of(before, count, start, active, k),
{
    lemma_same_count(before, after, k, start);
    lemma_same_nth(before, after, count, count, start, active, k - on_time_count(before, k, start));
    assert(after[k].start_timestamp == before[k].start_timestamp);
}

/// A slot added behind moves none of the places.
pub proof fn lemma_adding_moves_no_place(
    before: Seq<GatewaySlot>,
    after: Seq<GatewaySlot>,
    count: int,
    start: int,
    active: int,
    k: int,
)
    requires
        0 <= count < before.len(),
        active == on_time_count(before, count, start),
        0 <= k < active,
        after.len() == before.len(),
        forall|i: int| 0 <= i < count ==> before[i] == #[trigger] after[i],
    ensures
        place_of(after, count + 1, start, active, k) == place_of(before, count, start, active, k),
{
    lemma_count_grows(before, 0, count, start);
    lemma_count_grows(before, active, count, start);
    lemma_count_grows(before, 0, k, start);
    lemma_count_grows(before, k, active, start);
    lemma_same_count(before, after, k, start);
    let rank = k - on_time_count(before, k, start);
    if before[k].start_timestamp > start {
        lemma_nth_found(before, count, start, active, rank);
        lemma_same_nth(before, after, count, count + 1, start, active, rank);
    }
    assert(after[k] == before[k]);
}

/// Works out the slots of the gateways of an epoch.
pub fn gateway_places(registry: &GatewayRegistry, epoch: &Epoch) -> (r: Vec<usize>)
    requires
        registry.wf(),
        epoch.active_gateway_count <= 3000,
    ensures
        r@.len() == epoch.active_gateway_count,
        forall|k: int|
            0 <= k < r@.len() ==> (#[trigger] r@[k]) == place_in(*registry, *epoch, k) && r@[k] < 3000,
{
    let start: i64 = epoch.start_timestamp;
    let active: usize = epoch.active_gateway_count as usize;
    let count: usize = registry.count as usize;
    let ghost slots = registry.gateways@;
    let mut places: Vec<usize> = Vec::new();
    let mut stand_in: usize = active;
    let ghost mut used: int = 0;
    let mut k: usize = 0;
    while k < active
        invariant
            registry.wf(),
            slots == registry.gateways@,
            count == registry.count,
            start == epoch.start_timestamp,
            active == epoch.active_gateway_count,
            k <= active <= 3000,
            active <= stand_in <= 3000,
            used == k - on_time_count(slots, k as int, start as int),
            0 <= used,
            forall|n: int|
                n >= used ==> #[trigger] nth_on_time(slots, count as int, start as int, active as int, n)
                    == nth_on_time(slots, count as int, start as int, stand_in as int, n - used),
            places@.len() == k,
            forall|j: int|
                0 <= j < k ==> (#[trigger] places@[j]) == place_in(*registry, *epoch, j) && places@[j] < 3000,
        decreases active - k,
    {
        if registry.gateways[k].start_timestamp <= start {
            places.push(k);
        } else {
            while stand_in < count && registry.gateways[stand_in].start_timestamp > start
                invariant
                    registry.wf(),
                    slots == registry.gateways@,
                    count == registry.count,
                    active <= stand_in <= 3000,
                    forall|n: int|
                        n >= used ==> #[trigger] nth_on_time(slots, count as int, start as int, active as int, n)
                            == nth_on_time(slots, count as int, start as int, stand_in as int, n - used),
                decreases count - stand_in,
            {
                stand_in = stand_in + 1;
            }
            let ghost found = nth_on_time(slots, count as int, start as int, active as int, used);
            assert(found == nth_on_time(slots, count as int, start as int, stand_in as int, 0));
            if stand_in < count {
                places.push(stand_in);
                stand_in = stand_in + 1;
            } else {
                places.push(k);
            }
            proof {
                used = used + 1;
            }
        }
        k = k + 1;
    }
    places
}

/// Gathers the slots of the gateways of an epoch.
pub fn gateway_slots(registry: &GatewayRegistry, epoch: &Epoch) -> (r: Vec<GatewaySlot>)
    requires
        registry.wf(),
        epoch.active_gateway_count <= 3000,
    ensures
        r@ == slots_in(*registry, *epoch),
{
    let places: Vec<usize> = gateway_places(registry, epoch);
    let mut slots: Vec<GatewaySlot> = Vec::new();
    let mut k: usize = 0;
    while k < places.len()
        invariant
            registry.wf(),
            k <= places@.len(),
            places@.len() == epoch.active_gateway_count,
            forall|j: int|
                0 <= j < places@.len() ==> (#[trigger] places@[j]) == place_in(*registry, *epoch, j) && places@[j]
                    < 3000,
            slots@ == slots_in(*registry, *epoch).take(k as int),
        decreases places@.len() - k,
    {
        slots.push(registry.gateways[places[k]]);
        assert(slots@ =~= slots_in(*registry, *epoch).take(k + 1));
        k = k + 1;
    }
    assert(slots@ =~= slots_in(*registry, *epoch));
    slots
}

/// The number of slots on time is what it says: that of the slots in use whose gateway
/// joined by `start`.
pub proof fn counting_keeps_the_slots_on_time(registry: GatewayRegistry, start: i64, r: u32)
    requires
        registry.wf(),
        call_ensures(count_on_time, (&registry, start), r),
    ensures
        r == registry.gateways@.take(registry.count as int).filter(
            |slot: GatewaySlot| slot.start_timestamp <= start,
        ).len(),
{
    lemma_count_is_filter(registry.gateways@, registry.count as int, start as int);
}

pub proof fn lemma_count_is_filter(slots: Seq<GatewaySlot>, n: int, start: int)
    requires
        0 <= n <= slots.len(),
    ensures
        on_time_count(slots, n, start) == slots.take(n).filter(|slot: GatewaySlot| slot.start_timestamp <= start).len(),
    decreases n,
{
    reveal(Seq::filter);
    if n > 0 {
        lemma_count_is_filter(slots, n - 1, start);
        assert(slots.take(n).drop_last() =~= slots.take(n - 1));
    }
}

/// The places that are worked out are those that every step of an epoch goes by: a
/// gateway on time in its own slot, and another one in that of the late gateway whose
/// place it takes.
pub proof fn worked_out_places_are_on_time(registry: GatewayRegistry, epoch: Epoch, places: Vec<usize>, slots: Vec<GatewaySlot>)
    requires
        registry.wf(),
        epoch.active_gateway_count <= 3000,
        call_ensures(gateway_places, (&registry, &epoch), places),
        call_ensures(gateway_slots, (&registry, &epoch), slots),
    ensures
        places@.len() == epoch.active_gateway_count,
        slots@.len() == epoch.active_gateway_count,
        forall|k: int| 0 <= k < places@.len() ==> #[trigger] places@[k] < 3000 && slots@[k] == registry.gateways@[places@[k] as int],
        forall|k: int|
            0 <= k < places@.len() && registry.gateways@[k].start_timestamp <= epoch.start_timestamp
                ==> #[trigger] places@[k] == k,
        forall|j: int, k: int| 0 <= j < k < places@.len() ==> #[trigger] places@[j] != #[trigger] places@[k],
        epoch.active_gateway_count == registry.gateways@.take(registry.count as int).filter(
            |slot: GatewaySlot| slot.start_timestamp <= epoch.start_timestamp,
        ).len() ==> forall|k: int|
            0 <= k < places@.len() ==> #[trigger] places@[k] < registry.count
                && registry.gateways@[places@[k] as int].start_timestamp <= epoch.start_timestamp,
{
    let gs = registry.gateways@;
    let count = registry.count as int;
    let start = epoch.start_timestamp as int;
    let active = epoch.active_gateway_count as int;
    lemma_count_is_filter(gs, count, start);
    assert((|slot: GatewaySlot| slot.start_timestamp <= epoch.start_timestamp) =~= (|slot: GatewaySlot|
        slot.start_timestamp <= start));
    assert forall|j: int, k: int| 0 <= j < k < active implies #[trigger] places@[j] != #[trigger] places@[k] by {
        places_are_distinct(gs, count, start, active, j, k);
    }
    if active == on_time_count(gs, count, start) {
        assert forall|k: int| 0 <= k < active implies #[trigger] places@[k] < registry.count
            && gs[places@[k] as int].start_timestamp <= epoch.start_timestamp by {
            places_are_on_time(gs, count, start, active, k);
        }
    }
}

} // verus!
