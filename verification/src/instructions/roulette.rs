//! Drawing observers by weight.

use vstd::prelude::*;
use crate::pubkey::Pubkey;
use crate::state::accounts::GatewaySlot;

verus! {

/// The sum of the weights of the first `n` slots.
pub open spec fn weight_sum(slots: Seq<GatewaySlot>, n: int) -> int
    decreases n,
{
    if n <= 0 {
        0
    } else {
        weight_sum(slots, n - 1) + slots[n - 1].composite_weight
    }
}

pub proof fn lemma_weight_sum_bounds(slots: Seq<GatewaySlot>, i: int, n: int)
    requires
        0 <= i <= n,
    ensures
        0 <= weight_sum(slots, i) <= weight_sum(slots, n) <= n * 0x1_0000_0000_0000_0000,
    decreases n,
{
    if i < n {
        lemma_weight_sum_bounds(slots, i, n - 1);
    } else if n > 0 {
        lemma_weight_sum_bounds(slots, n - 1, n - 1);
    }
}

/// The sum of the weights as they stand: a gateway that left since the tally does
/// not count.
pub fn live_total(slots: &Vec<GatewaySlot>, n: usize) -> (r: u128)
    requires
        n <= slots@.len(),
        n <= 3000,
    ensures
        r == weight_sum(slots@, n as int),
{
    let mut total: u128 = 0;
    let mut i: usize = 0;
    while i < n
        invariant
            i <= n <= slots@.len(),
            n <= 3000,
            total == weight_sum(slots@, i as int),
        decreases n - i,
    {
        proof {
            lemma_weight_sum_bounds(slots@, i as int, i as int);
        }
        total = total.saturating_add(slots[i].composite_weight as u128);
        i = i + 1;
    }
    total
}

/// The slot whose part of the weights `value` falls into: the sum up to it is no
/// more than `value`, and the sum with it is more.
pub open spec fn holds_value(slots: Seq<GatewaySlot>, i: int, value: int) -> bool {
    weight_sum(slots, i) <= value < weight_sum(slots, i + 1)
}

/// The slot from `i` on that `value` falls into.
pub open spec fn roulette_from(slots: Seq<GatewaySlot>, n: int, value: int, i: int) -> Option<int>
    decreases n - i,
{
    if i >= n {
        None
    } else if weight_sum(slots, i + 1) > value {
        Some(i)
    } else {
        roulette_from(slots, n, value, i + 1)
    }
}

/// The slot that `value` falls into.
pub open spec fn roulette(slots: Seq<GatewaySlot>, n: int, value: int) -> Option<int> {
    roulette_from(slots, n, value, 0)
}

proof fn lemma_roulette_from(slots: Seq<GatewaySlot>, n: int, value: int, i: int)
    requires
        0 <= i <= n,
        weight_sum(slots, i) <= value,
    ensures
        match roulette_from(slots, n, value, i) {
            Some(k) => i <= k < n && holds_value(slots, k, value),
            None => weight_sum(slots, n) <= value,
        },
    decreases n - i,
{
    if i < n && weight_sum(slots, i + 1) <= value {
        lemma_roulette_from(slots, n, value, i + 1);
    }
}

/// Finds the slot that `value` falls into. A slot without weight is never found.
pub fn roulette_select(slots: &Vec<GatewaySlot>, n: usize, value: u128) -> (r: Option<usize>)
    requires
        n <= slots@.len(),
        n <= 3000,
    ensures
        match r {
            Some(i) => {
                &&& roulette(slots@, n as int, value as int) == Some(i as int)
                &&& i < n
                &&& holds_value(slots@, i as int, value as int)
                &&& slots@[i as int].composite_weight > 0
            },
            None => {
                &&& roulette(slots@, n as int, value as int) is None
                &&& weight_sum(slots@, n as int) <= value
            },
        },
{
    let mut cumulative: u128 = 0;
    let mut i: usize = 0;
    while i < n
        invariant
            i <= n <= slots@.len(),
            n <= 3000,
            cumulative == weight_sum(slots@, i as int),
            cumulative <= value,
            roulette(slots@, n as int, value as int) == roulette_from(slots@, n as int, value as int, i as int),
        decreases n - i,
    {
        let weight: u64 = slots[i].composite_weight;
        proof {
            lemma_weight_sum_bounds(slots@, i as int, i + 1);
        }
        cumulative = cumulative + weight as u128;
        if cumulative > value && weight > 0 {
            return Some(i);
        }
        i = i + 1;
    }
    None
}

/// Every value below the sum of the weights falls into a slot, and that slot has a
/// weight: there is no dead range, and a gateway without weight is never drawn.
pub proof fn every_value_draws_a_weighted_slot(slots: Seq<GatewaySlot>, n: int, value: int)
    requires
        0 <= n,
        0 <= value < weight_sum(slots, n),
    ensures
        roulette(slots, n, value) matches Some(i) && 0 <= i < n && slots[i].composite_weight > 0,
{
    lemma_roulette_from(slots, n, value, 0);
}

/// The values that draw a slot are exactly those in its part of the weights, so
/// each slot is drawn by as many values as its weight.
pub proof fn slots_are_drawn_in_proportion(slots: Seq<GatewaySlot>, n: int, i: int, value: int)
    requires
        0 <= i < n,
        0 <= value,
    ensures
        roulette(slots, n, value) == Some(i) <==> weight_sum(slots, i) <= value < weight_sum(slots, i)
            + slots[i].composite_weight,
{
    lemma_roulette_from(slots, n, value, 0);
    if holds_value(slots, i, value) {
        lemma_weight_sum_bounds(slots, i + 1, n);
        match roulette(slots, n, value) {
            Some(k) => {
                if k < i {
                    lemma_weight_sum_bounds(slots, k + 1, i);
                } else if k > i {
                    lemma_weight_sum_bounds(slots, i + 1, k);
                }
            },
            None => {},
        }
    }
}

/// The gateways drawn so far once one more value is drawn: a gateway counts once.
pub open spec fn after_draw(slots: Seq<GatewaySlot>, n: int, value: int, selected: Seq<Pubkey>) -> Seq<Pubkey> {
    match roulette(slots, n, value) {
        Some(i) => if selected.contains(slots[i].address) {
            selected
        } else {
            selected.push(slots[i].address)
        },
        None => selected,
    }
}

pub fn contains_key(keys: &Vec<Pubkey>, key: &Pubkey) -> (r: bool)
    ensures
        r == keys@.contains(*key),
{
    let mut i: usize = 0;
    while i < keys.len()
        invariant
            i <= keys@.len(),
            forall|j: int| 0 <= j < i ==> keys@[j] != *key,
        decreases keys@.len() - i,
    {
        if keys[i] == *key {
            return true;
        }
        i = i + 1;
    }
    false
}

/// Draws one more value.
pub fn draw_observer(slots: &Vec<GatewaySlot>, n: usize, value: u128, selected: &mut Vec<Pubkey>)
    requires
        n <= slots@.len(),
        n <= 3000,
    ensures
        final(selected)@ == after_draw(slots@, n as int, value as int, old(selected)@),
{
    match roulette_select(slots, n, value) {
        Some(i) => {
            let address = slots[i].address;
            if !contains_key(selected, &address) {
                selected.push(address);
            }
        },
        None => {},
    }
}

/// A value is drawn by the slot in whose part of the weights it falls: the weights
/// before the slot come to no more than the value, and with the slot to more.
pub proof fn value_falls_into_the_slot_drawn(slots: Vec<GatewaySlot>, n: usize, value: u128, r: Option<usize>, total: u128)
    requires
        n <= slots@.len(),
        n <= 3000,
        call_ensures(roulette_select, (&slots, n, value), r),
        call_ensures(live_total, (&slots, n), total),
    ensures
        r is Some <==> value < total,
        r matches Some(i) ==> {
            &&& i < n
            &&& weight_total(slots@.take(i as int)) <= value
            &&& value < weight_total(slots@.take(i as int)) + slots@[i as int].composite_weight
        },
        total == weight_total(slots@.take(n as int)),
{
    lemma_sum_is_total(slots@, n as int);
    if r is Some {
        lemma_sum_is_total(slots@, r->Some_0 as int);
        lemma_weight_sum_bounds(slots@, r->Some_0 + 1, n as int);
    }
}

/// The sum of the weights of some slots.
pub open spec fn weight_total(slots: Seq<GatewaySlot>) -> int
    decreases slots.len(),
{
    if slots.len() == 0 {
        0
    } else {
        weight_total(slots.drop_last()) + slots.last().composite_weight
    }
}

pub proof fn lemma_sum_is_total(slots: Seq<GatewaySlot>, n: int)
    requires
        0 <= n <= slots.len(),
    ensures
        weight_sum(slots, n) == weight_total(slots.take(n)),
    decreases n,
{
    if n > 0 {
        lemma_sum_is_total(slots, n - 1);
        assert(slots.take(n).drop_last() =~= slots.take(n - 1));
    }
}

/// Drawing a value adds the gateway of the slot that it falls into, unless that gateway
/// has been drawn before, and nothing else.
pub proof fn drawing_adds_the_gateway_of_the_slot(
    slots: Vec<GatewaySlot>,
    n: usize,
    value: u128,
    selected: &mut Vec<Pubkey>,
    slot: Option<usize>,
)
    requires
        n <= slots@.len(),
        n <= 3000,
        call_ensures(draw_observer, (&slots, n, value, selected), ()),
        call_ensures(roulette_select, (&slots, n, value), slot),
    ensures
        slot matches Some(i) ==> {
            let address = slots@[i as int].address;
            &&& old(selected)@.contains(address) ==> final(selected)@ == old(selected)@
            &&& !old(selected)@.contains(address) ==> final(selected)@ == old(selected)@.push(address)
        },
        slot is None ==> final(selected)@ == old(selected)@,
{
}

/// A key is among some keys if it is at one of their places.
pub proof fn key_is_found_at_any_place(keys: Vec<Pubkey>, key: Pubkey, r: bool)
    requires
        call_ensures(contains_key, (&keys, &key), r),
    ensures
        r <==> exists|i: int| 0 <= i < keys@.len() && #[trigger] keys@[i] == key,
{
}

} // verus!
