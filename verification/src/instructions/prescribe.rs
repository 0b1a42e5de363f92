//! Prescribing the observers and the names of an epoch.

use vstd::prelude::*;
use crate::addresses::{bytes_of, gateway_address, gateway_pda, name_registry_address, name_registry_pda};
use crate::arith::{
    is_part, le_prefix, le_value, lemma_quotient_is_part, lesser, low64, mul_wide, truncate_u128,
};
use crate::error::GarError;
use crate::events::EpochPrescribedEvent;
use crate::instructions::effects::Refusal;
use crate::instructions::places::{gateway_slots, slots_in};
use crate::instructions::roulette::{
    after_draw, draw_observer, every_value_draws_a_weighted_slot, lemma_sum_is_total, lemma_weight_sum_bounds,
    live_total, roulette, slots_are_drawn_in_proportion, weight_sum, weight_total,
};
use crate::pubkey::{same_bytes, sha256, sha256_hash, Pubkey};
use crate::state::accounts::{EpochSettings, Gateway, GatewayRegistry, GatewaySettings, GatewaySlot};
use crate::state::constants::RATE_SCALE;
use crate::state::epoch::Epoch;
use crate::state::name_registry::{le_u32, name_entry, read_name_entry, read_name_registry_header};

verus! {

/// An account passed along to `prescribe_epoch`: a gateway, or the name registry.
#[derive(Clone, Debug)]
pub struct PrescribeAccount {
    pub key: Pubkey,
    /// The program that the account belongs to.
    pub owner: Pubkey,
    /// The gateway that the account holds, if it does.
    pub gateway: Option<Gateway>,
    /// The raw data of the account.
    pub data: Vec<u8>,
}

/// The accounts of `prescribe_epoch`: besides the fixed ones, the gateways that are
/// drawn, in any order, and then the name registry, which may be left out.
#[derive(Clone, Debug)]
pub struct PrescribeEpoch {
    pub settings: GatewaySettings,
    pub epoch_settings: EpochSettings,
    pub epoch: Epoch,
    pub registry: GatewayRegistry,
    pub accounts: Vec<PrescribeAccount>,
    pub program_id: Pubkey,
}

/// The value that a digest draws: its first sixteen bytes, within the sum of the
/// weights.
pub open spec fn drawn_value(digest: Seq<u8>, total: int) -> int {
    le_value(digest.take(16)) % total
}

/// The gateways drawn from `digest` on, round after round, until there are enough
/// or the rounds are over. Each round hashes the digest of the one before.
pub open spec fn draw_from(
    slots: Seq<GatewaySlot>,
    n: int,
    wanted: int,
    rounds: int,
    digest: Seq<u8>,
    selected: Seq<Pubkey>,
) -> Seq<Pubkey>
    decreases rounds,
{
    if rounds <= 0 || selected.len() >= wanted {
        selected
    } else {
        draw_from(
            slots,
            n,
            wanted,
            rounds - 1,
            sha256(digest),
            after_draw(slots, n, drawn_value(digest, weight_sum(slots, n)), selected),
        )
    }
}

/// How many observers are wanted: as many as are prescribed and there are gateways,
/// and no more than the epoch has places for.
pub open spec fn wanted_observers(ctx: PrescribeEpoch) -> int {
    lesser(
        lesser(ctx.epoch_settings.prescribed_observer_count as int, ctx.epoch.active_gateway_count as int),
        50,
    )
}

/// The gateways whose observers are prescribed, in the order in which they are
/// drawn.
pub open spec fn drawn_gateways(ctx: PrescribeEpoch) -> Seq<Pubkey> {
    let slots = slots_in(ctx.registry, ctx.epoch);
    let n = ctx.epoch.active_gateway_count as int;
    if weight_sum(slots, n) > 0 {
        draw_from(
            slots,
            n,
            wanted_observers(ctx),
            wanted_observers(ctx) * 10,
            sha256(ctx.epoch.hashchain@),
            Seq::empty(),
        )
    } else {
        Seq::empty()
    }
}

fn digest_of(bytes: &[u8; 32]) -> (r: [u8; 32])
    ensures
        r@ == sha256(bytes@),
{
    sha256_hash(&bytes_of(bytes))
}

fn draw_gateways(ctx: &PrescribeEpoch, slots: &Vec<GatewaySlot>) -> (r: Vec<Pubkey>)
    requires
        slots@ == slots_in(ctx.registry, ctx.epoch),
        ctx.epoch.active_gateway_count <= 3000,
    ensures
        r@ == drawn_gateways(*ctx),
        r@.len() <= wanted_observers(*ctx),
{
    let n: usize = ctx.epoch.active_gateway_count as usize;
    let total: u128 = live_total(slots, n);
    let mut max_observers: usize = ctx.epoch_settings.prescribed_observer_count as usize;
    if max_observers > n {
        max_observers = n;
    }
    if max_observers > 50 {
        max_observers = 50;
    }
    let mut selected: Vec<Pubkey> = Vec::new();
    if total == 0 {
        proof {
            lemma_weight_sum_bounds(slots@, 0, n as int);
        }
        return selected;
    }
    let mut digest: [u8; 32] = digest_of(&ctx.epoch.hashchain);
    let mut rounds: usize = max_observers * 10;
    while rounds > 0 && selected.len() < max_observers
        invariant
            slots@ == slots_in(ctx.registry, ctx.epoch),
            n == ctx.epoch.active_gateway_count,
            n <= 3000,
            total == weight_sum(slots@, n as int),
            total > 0,
            max_observers == wanted_observers(*ctx),
            selected@.len() <= max_observers,
            draw_from(slots@, n as int, max_observers as int, rounds as int, digest@, selected@)
                == drawn_gateways(*ctx),
        decreases rounds,
    {
        let value: u128 = le_prefix(&digest, 16) % total;
        draw_observer(slots, n, value, &mut selected);
        digest = digest_of(&digest);
        rounds = rounds - 1;
    }
    selected
}

/// The first account with the given key.
pub open spec fn find_from(accounts: Seq<PrescribeAccount>, key: Pubkey, i: int) -> Option<int>
    decreases accounts.len() - i,
{
    if i >= accounts.len() {
        None
    } else if accounts[i].key == key {
        Some(i)
    } else {
        find_from(accounts, key, i + 1)
    }
}

/// The observer of the gateway of `operator`, whose account must lie among
/// `accounts` at the `expected` address.
pub open spec fn observer_of(
    accounts: Seq<PrescribeAccount>,
    expected: Pubkey,
    operator: Pubkey,
    program_id: Pubkey,
) -> Result<Pubkey, GarError> {
    match find_from(accounts, expected, 0) {
        None => Err(GarError::InvalidGatewayAccount),
        Some(i) => if accounts[i].owner != program_id {
            Err(GarError::InvalidGatewayAccount)
        } else {
            match accounts[i].gateway {
                None => Err(GarError::InvalidGatewayAccount),
                Some(gateway) => if gateway.operator != operator {
                    Err(GarError::InvalidGatewayAccount)
                } else {
                    Ok(gateway.observer_address)
                },
            }
        },
    }
}

/// Looks up the observer of the gateway of `operator`, whose account lies at the
/// `expected` address.
pub fn resolve_observer(
    accounts: &Vec<PrescribeAccount>,
    expected: &Pubkey,
    operator: &Pubkey,
    program_id: &Pubkey,
) -> (r: Result<Pubkey, GarError>)
    ensures
        r == observer_of(accounts@, *expected, *operator, *program_id),
{
    let mut i: usize = 0;
    while i < accounts.len()
        invariant
            i <= accounts@.len(),
            find_from(accounts@, *expected, 0) == find_from(accounts@, *expected, i as int),
        decreases accounts@.len() - i,
    {
        if accounts[i].key == *expected {
            if accounts[i].owner != *program_id {
                return Err(GarError::InvalidGatewayAccount);
            }
            return match &accounts[i].gateway {
                None => Err(GarError::InvalidGatewayAccount),
                Some(gateway) => if gateway.operator != *operator {
                    Err(GarError::InvalidGatewayAccount)
                } else {
                    Ok(gateway.observer_address)
                },
            };
        }
        i = i + 1;
    }
    Err(GarError::InvalidGatewayAccount)
}

/// The observers of the drawn gateways from place `i` on.
pub open spec fn observers_from(ctx: PrescribeEpoch, selected: Seq<Pubkey>, i: int, observers: Seq<Pubkey>) -> Result<
    Seq<Pubkey>,
    Refusal,
>
    decreases selected.len() - i,
{
    if i >= selected.len() {
        Ok(observers)
    } else {
        match gateway_pda(selected[i], ctx.program_id) {
            None => Err(Refusal::NoProgramAddress),
            Some((expected, bump)) => match observer_of(
                ctx.accounts@,
                expected,
                selected[i],
                ctx.program_id,
            ) {
                Err(e) => Err(Refusal::Gar(e)),
                Ok(observer) => observers_from(ctx, selected, i + 1, observers.push(observer)),
            },
        }
    }
}

fn resolve_observers(ctx: &PrescribeEpoch, selected: &Vec<Pubkey>) -> (r: Result<Vec<Pubkey>, Refusal>)
    ensures
        match r {
            Ok(observers) => {
                &&& observers_from(*ctx, selected@, 0, Seq::empty()) == Ok::<Seq<Pubkey>, Refusal>(observers@)
                &&& observers@.len() == selected@.len()
            },
            Err(e) => observers_from(*ctx, selected@, 0, Seq::empty()) == Err::<Seq<Pubkey>, Refusal>(e),
        },
{
    let mut observers: Vec<Pubkey> = Vec::new();
    let mut i: usize = 0;
    while i < selected.len()
        invariant
            i <= selected@.len(),
            observers@.len() == i,
            observers_from(*ctx, selected@, i as int, observers@) == observers_from(
                *ctx,
                selected@,
                0,
                Seq::empty(),
            ),
        decreases selected@.len() - i,
    {
        let expected = match gateway_address(&selected[i], &ctx.program_id) {
            None => {
                return Err(Refusal::NoProgramAddress);
            },
            Some((expected, _bump)) => expected,
        };
        match resolve_observer(&ctx.accounts, &expected, &selected[i], &ctx.program_id) {
            Err(e) => {
                return Err(Refusal::Gar(e));
            },
            Ok(observer) => {
                observers.push(observer);
            },
        }
        i = i + 1;
    }
    Ok(observers)
}

/// The first name from place `start + probe` on, round the end, that is in use and
/// not among `chosen`.
pub open spec fn probe_from(
    data: Seq<u8>,
    active: int,
    start: int,
    probe: int,
    chosen: Seq<Seq<u8>>,
) -> Option<Seq<u8>>
    decreases active - probe,
{
    if probe >= active {
        None
    } else {
        match name_entry(data, 48, (start + probe) % active) {
            Some(name) => if chosen.contains(name) {
                probe_from(data, active, start, probe + 1, chosen)
            } else {
                Some(name)
            },
            None => probe_from(data, active, start, probe + 1, chosen),
        }
    }
}

/// The names chosen so far once one more is looked for from `start` on.
pub open spec fn after_probe(data: Seq<u8>, active: int, start: int, chosen: Seq<Seq<u8>>) -> Seq<Seq<u8>> {
    match probe_from(data, active, start, 0, chosen) {
        Some(name) => chosen.push(name),
        None => chosen,
    }
}

/// The names chosen from `digest` on, round after round, until there are enough or
/// the rounds are over.
pub open spec fn choose_from(
    data: Seq<u8>,
    active: int,
    wanted: int,
    rounds: int,
    digest: Seq<u8>,
    chosen: Seq<Seq<u8>>,
) -> Seq<Seq<u8>>
    decreases rounds,
{
    if rounds <= 0 || chosen.len() >= wanted {
        chosen
    } else {
        choose_from(
            data,
            active,
            wanted,
            rounds - 1,
            sha256(digest),
            after_probe(data, active, le_value(digest.take(8)) % active, chosen),
        )
    }
}

/// The hashes of some names.
pub open spec fn names_view(names: Seq<[u8; 32]>) -> Seq<Seq<u8>> {
    Seq::new(names.len(), |i: int| names[i]@)
}

fn contains_name(names: &Vec<[u8; 32]>, name: &[u8; 32]) -> (r: bool)
    ensures
        r == names_view(names@).contains(name@),
{
    let mut i: usize = 0;
    while i < names.len()
        invariant
            i <= names@.len(),
            forall|j: int| 0 <= j < i ==> names_view(names@)[j] != name@,
        decreases names@.len() - i,
    {
        if same_bytes(&names[i], name) {
            assert(names_view(names@)[i as int] == name@);
            return true;
        }
        i = i + 1;
    }
    false
}

/// Reads entry `index` of the name registry.
fn entry_at(data: &Vec<u8>, index: u64) -> (r: Option<[u8; 32]>)
    requires
        index <= u32::MAX,
    ensures
        match r {
            Some(name) => name_entry(data@, 48, index as int) == Some(name@),
            None => name_entry(data@, 48, index as int) is None,
        },
{
    let end: u64 = 48 + index * 40 + 32;
    if end > data.len() as u64 {
        return None;
    }
    read_name_entry(data.as_slice(), 48, index as usize)
}

/// Looks for one more name from `start` on.
pub fn probe_names(data: &Vec<u8>, active: u32, start: u64, chosen: &mut Vec<[u8; 32]>)
    requires
        0 < active,
        start < active,
    ensures
        names_view(final(chosen)@) == after_probe(data@, active as int, start as int, names_view(old(chosen)@)),
        old(chosen)@.len() <= final(chosen)@.len() <= old(chosen)@.len() + 1,
{
    let active_names: u64 = active as u64;
    let ghost before = names_view(chosen@);
    let mut probe: u64 = 0;
    while probe < active_names
        invariant
            probe <= active_names,
            active_names == active,
            0 < active,
            start < active,
            chosen@ == old(chosen)@,
            before == names_view(chosen@),
            probe_from(data@, active as int, start as int, 0, before) == probe_from(
                data@,
                active as int,
                start as int,
                probe as int,
                before,
            ),
        decreases active_names - probe,
    {
        let index: u64 = (start + probe) % active_names;
        match entry_at(data, index) {
            Some(name) => {
                if !contains_name(chosen, &name) {
                    chosen.push(name);
                    assert(names_view(chosen@) =~= before.push(name@));
                    return;
                }
            },
            None => {},
        }
        probe = probe + 1;
    }
}

/// Whether the name registry was passed: there are more accounts than gateways
/// drawn.
pub open spec fn names_supplied(ctx: PrescribeEpoch, selected: Seq<Pubkey>) -> bool {
    ctx.accounts@.len() > selected.len()
}

/// What is wrong with the account passed as the name registry, if anything.
/// `expected` is the registry's address.
pub open spec fn name_registry_refusal(
    account: PrescribeAccount,
    arns_program_id: Pubkey,
    expected: Option<(Pubkey, u8)>,
) -> Option<Refusal> {
    if account.owner != arns_program_id {
        Some(Refusal::Gar(GarError::InvalidNameRegistry))
    } else {
        match expected {
            None => Some(Refusal::NoProgramAddress),
            Some((key, bump)) => if account.key != key {
                Some(Refusal::Gar(GarError::InvalidNameRegistry))
            } else {
                None
            },
        }
    }
}

/// How many names are wanted: two at most, and no more than there are.
pub open spec fn wanted_names(prescribed_name_count: u8, active: int) -> int {
    lesser(prescribed_name_count as int, lesser(active, 2))
}

/// The names chosen from the data of the name registry; `None` if none are to be
/// chosen.
pub open spec fn chosen_names(data: Seq<u8>, prescribed_name_count: u8, hashchain: Seq<u8>) -> Option<Seq<Seq<u8>>> {
    if data.len() < 48 {
        None
    } else {
        let active = le_u32(data, 40);
        let wanted = wanted_names(prescribed_name_count, active);
        if wanted <= 0 {
            None
        } else {
            Some(choose_from(data, active, wanted, wanted * 3, sha256(hashchain), Seq::empty()))
        }
    }
}

/// The names of the epoch; `None` if none are to be chosen.
pub open spec fn prescribed_names(ctx: PrescribeEpoch, selected: Seq<Pubkey>) -> Result<
    Option<Seq<Seq<u8>>>,
    Refusal,
> {
    if !names_supplied(ctx, selected) {
        Ok(None)
    } else {
        let account = ctx.accounts@.last();
        match name_registry_refusal(
            account,
            ctx.settings.arns_program_id,
            name_registry_pda(ctx.settings.arns_program_id),
        ) {
            Some(e) => Err(e),
            None => Ok(
                chosen_names(
                    account.data@,
                    ctx.epoch_settings.prescribed_name_count,
                    ctx.epoch.hashchain@,
                ),
            ),
        }
    }
}

fn choose_names(data: &Vec<u8>, prescribed_name_count: u8, hashchain: &[u8; 32]) -> (r: Option<Vec<[u8; 32]>>)
    ensures
        match r {
            Some(names) => {
                &&& chosen_names(data@, prescribed_name_count, hashchain@) == Some(names_view(names@))
                &&& names@.len() <= 2
            },
            None => chosen_names(data@, prescribed_name_count, hashchain@) is None,
        },
{
    match read_name_registry_header(data.as_slice()) {
        None => None,
        Some((active, _offset)) => {
            let capped: u32 = if active <= 2 {
                active
            } else {
                2
            };
            let wanted: usize = if (prescribed_name_count as u32) <= capped {
                prescribed_name_count as usize
            } else {
                capped as usize
            };
            if wanted == 0 {
                return None;
            }
            let mut digest: [u8; 32] = digest_of(hashchain);
            let mut names: Vec<[u8; 32]> = Vec::new();
            let mut rounds: usize = wanted * 3;
            assert(names_view(names@) =~= Seq::<Seq<u8>>::empty());
            while rounds > 0 && names.len() < wanted
                invariant
                    active > 0,
                    0 < wanted <= 2,
                    wanted == wanted_names(prescribed_name_count, active as int),
                    data@.len() >= 48,
                    active == le_u32(data@, 40),
                    names@.len() <= wanted,
                    chosen_names(data@, prescribed_name_count, hashchain@) == Some(
                        choose_from(
                            data@,
                            active as int,
                            wanted as int,
                            rounds as int,
                            digest@,
                            names_view(names@),
                        ),
                    ),
                decreases rounds,
            {
                let start: u64 = (le_prefix(&digest, 8) % (active as u128)) as u64;
                probe_names(data, active, start, &mut names);
                digest = digest_of(&digest);
                rounds = rounds - 1;
            }
            Some(names)
        },
    }
}

fn prescribe_names(ctx: &PrescribeEpoch, selected: &Vec<Pubkey>) -> (r: Result<Option<Vec<[u8; 32]>>, Refusal>)
    ensures
        match r {
            Ok(Some(names)) => {
                &&& prescribed_names(*ctx, selected@) == Ok::<Option<Seq<Seq<u8>>>, Refusal>(
                    Some(names_view(names@)),
                )
                &&& names@.len() <= 2
            },
            Ok(None) => prescribed_names(*ctx, selected@) == Ok::<Option<Seq<Seq<u8>>>, Refusal>(None),
            Err(e) => prescribed_names(*ctx, selected@) == Err::<Option<Seq<Seq<u8>>>, Refusal>(e),
        },
{
    if ctx.accounts.len() <= selected.len() {
        return Ok(None);
    }
    let account = &ctx.accounts[ctx.accounts.len() - 1];
    if account.owner != ctx.settings.arns_program_id {
        return Err(Refusal::Gar(GarError::InvalidNameRegistry));
    }
    match name_registry_address(&ctx.settings.arns_program_id) {
        None => {
            return Err(Refusal::NoProgramAddress);
        },
        Some((expected, _bump)) => {
            if account.key != expected {
                return Err(Refusal::Gar(GarError::InvalidNameRegistry));
            }
        },
    }
    Ok(choose_names(&account.data, ctx.epoch_settings.prescribed_name_count, &ctx.epoch.hashchain))
}

/// How many of the first `n` slots carry a weight.
pub open spec fn weighted_count(slots: Seq<GatewaySlot>, n: int) -> int
    decreases n,
{
    if n <= 0 {
        0
    } else {
        weighted_count(slots, n - 1) + if slots[n - 1].composite_weight > 0 {
            1int
        } else {
            0
        }
    }
}

fn count_weighted(slots: &Vec<GatewaySlot>, n: usize) -> (r: u64)
    requires
        n <= slots@.len(),
        n <= 3000,
    ensures
        r == weighted_count(slots@, n as int),
{
    let mut count: u64 = 0;
    let mut i: usize = 0;
    while i < n
        invariant
            i <= n <= slots@.len(),
            n <= 3000,
            count <= i,
            count == weighted_count(slots@, i as int),
        decreases n - i,
    {
        if slots[i].composite_weight > 0 {
            count = count.saturating_add(1);
        }
        i = i + 1;
    }
    count
}

/// A part of the epoch's rewards, shared equally.
pub open spec fn equal_share(total: u64, ratio: u64, among: int) -> int {
    low64(total * ratio / RATE_SCALE as int) / among
}

/// How many gateways of the epoch carry a weight, and so share in the rewards.
pub open spec fn sharing_gateways(ctx: PrescribeEpoch) -> int {
    weighted_count(slots_in(ctx.registry, ctx.epoch), ctx.epoch.active_gateway_count as int)
}

/// The reward of one gateway: an equal share among those that carry a weight.
pub open spec fn gateway_reward(ctx: PrescribeEpoch) -> int {
    let count = sharing_gateways(ctx);
    if count > 0 {
        equal_share(ctx.epoch.total_eligible_rewards, ctx.epoch_settings.gateway_reward_ratio, count)
    } else {
        ctx.epoch.per_gateway_reward as int
    }
}

/// The reward of one observer: an equal share among those drawn.
pub open spec fn observer_reward(ctx: PrescribeEpoch, selected: int) -> int {
    let count = sharing_gateways(ctx);
    if count > 0 && selected > 0 {
        equal_share(ctx.epoch.total_eligible_rewards, ctx.epoch_settings.observer_reward_ratio, selected)
    } else {
        ctx.epoch.per_observer_reward as int
    }
}

fn share_equally(total: u64, ratio: u64, among: u64) -> (r: u64)
    requires
        among > 0,
    ensures
        r == equal_share(total, ratio, among as int),
{
    truncate_u128(mul_wide(total, ratio) / RATE_SCALE as u128) / among
}

/// Why an epoch cannot be prescribed at all, if so.
pub open spec fn prescribe_refusal(ctx: PrescribeEpoch) -> Option<GarError> {
    if ctx.epoch.weights_tallied == 0 {
        Some(GarError::WeightsNotTallied)
    } else if ctx.epoch.prescriptions_done != 0 {
        Some(GarError::PrescriptionsAlreadyDone)
    } else {
        None
    }
}

/// What an epoch is prescribed: the gateways drawn, their observers, and the names.
pub struct Prescription {
    pub gateways: Seq<Pubkey>,
    pub observers: Seq<Pubkey>,
    pub names: Option<Seq<Seq<u8>>>,
}

/// What prescribing an epoch comes to.
pub open spec fn prescription(ctx: PrescribeEpoch) -> Result<Prescription, Refusal> {
    match prescribe_refusal(ctx) {
        Some(e) => Err(Refusal::Gar(e)),
        None => {
            let gateways = drawn_gateways(ctx);
            match observers_from(ctx, gateways, 0, Seq::empty()) {
                Err(e) => Err(e),
                Ok(observers) => match prescribed_names(ctx, gateways) {
                    Err(e) => Err(e),
                    Ok(names) => Ok(Prescription { gateways, observers, names }),
                },
            }
        },
    }
}

/// The first places of `after` hold `values`; the others are as in `before`.
pub open spec fn filled(before: Seq<Pubkey>, after: Seq<Pubkey>, values: Seq<Pubkey>) -> bool {
    &&& after.len() == before.len()
    &&& forall|i: int| 0 <= i < values.len() ==> after[i] == values[i]
    &&& forall|i: int| values.len() <= i < before.len() ==> after[i] == before[i]
}

/// The first places of `after` hold `names`; the others are as in `before`.
pub open spec fn names_filled(before: Seq<[u8; 32]>, after: Seq<[u8; 32]>, names: Seq<Seq<u8>>) -> bool {
    &&& after.len() == before.len()
    &&& forall|i: int| 0 <= i < names.len() ==> (#[trigger] after[i])@ == names[i]
    &&& forall|i: int| names.len() <= i < before.len() ==> after[i] == before[i]
}

/// The epoch once it has been prescribed.
pub open spec fn is_prescribed(ctx: PrescribeEpoch, p: Prescription, after: Epoch) -> bool {
    let before = ctx.epoch;
    &&& after == (Epoch {
        observer_count: p.gateways.len() as u8,
        name_count: match p.names {
            Some(names) => names.len() as u8,
            None => before.name_count,
        },
        prescribed_observers: after.prescribed_observers,
        prescribed_observer_gateways: after.prescribed_observer_gateways,
        prescribed_names: after.prescribed_names,
        per_gateway_reward: gateway_reward(ctx) as u64,
        per_observer_reward: observer_reward(ctx, p.gateways.len() as int) as u64,
        prescriptions_done: 1,
        ..before
    })
    &&& filled(before.prescribed_observer_gateways@, after.prescribed_observer_gateways@, p.gateways)
    &&& filled(before.prescribed_observers@, after.prescribed_observers@, p.observers)
    &&& match p.names {
        Some(names) => names_filled(before.prescribed_names@, after.prescribed_names@, names),
        None => after.prescribed_names == before.prescribed_names,
    }
}

fn fill_keys(target: &mut [Pubkey; 50], values: &Vec<Pubkey>)
    requires
        values@.len() <= 50,
    ensures
        filled(old(target)@, final(target)@, values@),
{
    let mut i: usize = 0;
    while i < values.len()
        invariant
            i <= values@.len() <= 50,
            target@.len() == old(target)@.len(),
            forall|j: int| 0 <= j < i ==> target@[j] == values@[j],
            forall|j: int| i <= j < 50 ==> target@[j] == old(target)@[j],
        decreases values@.len() - i,
    {
        target[i] = values[i];
        i = i + 1;
    }
}

fn fill_names(target: &mut [[u8; 32]; 2], names: &Vec<[u8; 32]>)
    requires
        names@.len() <= 2,
    ensures
        names_filled(old(target)@, final(target)@, names_view(names@)),
{
    let mut i: usize = 0;
    while i < names.len()
        invariant
            i <= names@.len() <= 2,
            target@.len() == old(target)@.len(),
            forall|j: int| 0 <= j < i ==> target@[j] == names@[j],
            forall|j: int| i <= j < 2 ==> target@[j] == old(target)@[j],
        decreases names@.len() - i,
    {
        target[i] = names[i];
        i = i + 1;
    }
}

/// Prescribes the observers and names of an epoch. Observers are drawn by weight
/// from the epoch's own randomness; each must be backed by the account of its
/// gateway. The rewards per gateway and per observer follow.
pub fn prescribe_epoch(ctx: PrescribeEpoch, now: i64) -> (r: Result<(Epoch, EpochPrescribedEvent), Refusal>)
    requires
        ctx.registry.wf(),
        ctx.epoch.active_gateway_count <= 3000,
    ensures
        match r {
            Err(e) => prescription(ctx) == Err::<Prescription, Refusal>(e),
            Ok((after, event)) => {
                &&& prescription(ctx) matches Ok(p)
                &&& p.gateways.len() <= 50
                &&& is_prescribed(ctx, p, after)
                &&& after.observer_count == p.gateways.len()
                &&& event == (EpochPrescribedEvent {
                    epoch_index: ctx.epoch.epoch_index,
                    observer_count: after.observer_count,
                    per_gateway_reward: after.per_gateway_reward,
                    per_observer_reward: after.per_observer_reward,
                    timestamp: now,
                })
            },
        },
{
    if ctx.epoch.weights_tallied == 0 {
        return Err(Refusal::Gar(GarError::WeightsNotTallied));
    }
    if ctx.epoch.prescriptions_done != 0 {
        return Err(Refusal::Gar(GarError::PrescriptionsAlreadyDone));
    }
    let slots: Vec<GatewaySlot> = gateway_slots(&ctx.registry, &ctx.epoch);
    let selected: Vec<Pubkey> = draw_gateways(&ctx, &slots);
    let observers: Vec<Pubkey> = match resolve_observers(&ctx, &selected) {
        Err(e) => {
            return Err(e);
        },
        Ok(observers) => observers,
    };
    let names: Option<Vec<[u8; 32]>> = match prescribe_names(&ctx, &selected) {
        Err(e) => {
            return Err(e);
        },
        Ok(names) => names,
    };
    let mut epoch = ctx.epoch;
    epoch.observer_count = selected.len() as u8;
    fill_keys(&mut epoch.prescribed_observer_gateways, &selected);
    fill_keys(&mut epoch.prescribed_observers, &observers);
    if let Some(chosen) = &names {
        fill_names(&mut epoch.prescribed_names, chosen);
        epoch.name_count = chosen.len() as u8;
    }
    let joined_count: u64 = count_weighted(&slots, ctx.epoch.active_gateway_count as usize);
    if joined_count > 0 {
        epoch.per_gateway_reward = share_equally(
            ctx.epoch.total_eligible_rewards,
            ctx.epoch_settings.gateway_reward_ratio,
            joined_count,
        );
        if selected.len() > 0 {
            epoch.per_observer_reward = share_equally(
                ctx.epoch.total_eligible_rewards,
                ctx.epoch_settings.observer_reward_ratio,
                selected.len() as u64,
            );
        }
    }
    epoch.prescriptions_done = 1;
    let event = EpochPrescribedEvent {
        epoch_index: epoch.epoch_index,
        observer_count: epoch.observer_count,
        per_gateway_reward: epoch.per_gateway_reward,
        per_observer_reward: epoch.per_observer_reward,
        timestamp: now,
    };
    Ok((epoch, event))
}

/// An address that one of the first `n` slots holds, with a weight.
pub open spec fn in_weighted_slot(slots: Seq<GatewaySlot>, n: int, address: Pubkey) -> bool {
    exists|i: int| 0 <= i < n && (#[trigger] slots[i]).address == address && slots[i].composite_weight > 0
}

/// Each address stands for a weighted slot, and none occurs twice.
pub open spec fn properly_drawn(slots: Seq<GatewaySlot>, n: int, selected: Seq<Pubkey>) -> bool {
    &&& selected.no_duplicates()
    &&& forall|k: int| 0 <= k < selected.len() ==> in_weighted_slot(slots, n, #[trigger] selected[k])
}

proof fn lemma_draws(
    slots: Seq<GatewaySlot>,
    n: int,
    wanted: int,
    rounds: int,
    digest: Seq<u8>,
    selected: Seq<Pubkey>,
)
    requires
        0 <= n,
        0 < weight_sum(slots, n),
        properly_drawn(slots, n, selected),
        selected.len() <= wanted,
    ensures
        properly_drawn(slots, n, draw_from(slots, n, wanted, rounds, digest, selected)),
        draw_from(slots, n, wanted, rounds, digest, selected).len() <= wanted,
    decreases rounds,
{
    if rounds > 0 && selected.len() < wanted {
        let value = drawn_value(digest, weight_sum(slots, n));
        let next = after_draw(slots, n, value, selected);
        vstd::arithmetic::div_mod::lemma_mod_bound(le_value(digest.take(16)), weight_sum(slots, n));
        every_value_draws_a_weighted_slot(slots, n, value);
        let i = roulette(slots, n, value)->Some_0;
        if !selected.contains(slots[i].address) {
            assert(in_weighted_slot(slots, n, slots[i].address));
            assert forall|k: int| 0 <= k < next.len() implies in_weighted_slot(slots, n, #[trigger] next[k]) by {
                if k < selected.len() {
                    assert(in_weighted_slot(slots, n, selected[k]));
                }
            }
        }
        lemma_draws(slots, n, wanted, rounds - 1, sha256(digest), next);
    }
}

/// The gateways that are drawn are distinct, each holds a slot of the epoch with a
/// weight, so that none has left since the tally, and there are no more of them
/// than wanted, nor than the epoch has places for.
pub proof fn drawn_gateways_are_distinct_and_weighted(ctx: PrescribeEpoch)
    ensures
        properly_drawn(
            slots_in(ctx.registry, ctx.epoch),
            ctx.epoch.active_gateway_count as int,
            drawn_gateways(ctx),
        ),
        drawn_gateways(ctx).len() <= ctx.epoch_settings.prescribed_observer_count,
        drawn_gateways(ctx).len() <= ctx.epoch.active_gateway_count,
        drawn_gateways(ctx).len() <= 50,
{
    let slots = slots_in(ctx.registry, ctx.epoch);
    let n = ctx.epoch.active_gateway_count as int;
    if weight_sum(slots, n) > 0 {
        lemma_draws(
            slots,
            n,
            wanted_observers(ctx),
            wanted_observers(ctx) * 10,
            sha256(ctx.epoch.hashchain@),
            Seq::empty(),
        );
    }
}

/// A name that some entry of the registry holds.
pub open spec fn in_registry(data: Seq<u8>, active: int, name: Seq<u8>) -> bool {
    exists|i: int| 0 <= i < active && #[trigger] name_entry(data, 48, i) == Some(name)
}

/// Each name stands in the registry, and none occurs twice.
pub open spec fn properly_chosen(data: Seq<u8>, active: int, names: Seq<Seq<u8>>) -> bool {
    &&& names.no_duplicates()
    &&& forall|k: int| 0 <= k < names.len() ==> in_registry(data, active, #[trigger] names[k])
}

proof fn lemma_probe(data: Seq<u8>, active: int, start: int, probe: int, chosen: Seq<Seq<u8>>)
    requires
        0 < active,
        0 <= start,
        0 <= probe,
    ensures
        match probe_from(data, active, start, probe, chosen) {
            Some(name) => in_registry(data, active, name) && !chosen.contains(name),
            None => true,
        },
    decreases active - probe,
{
    if probe < active {
        vstd::arithmetic::div_mod::lemma_mod_bound(start + probe, active);
        let i = (start + probe) % active;
        assert(0 <= i < active);
        let entry = name_entry(data, 48, i);
        lemma_probe(data, active, start, probe + 1, chosen);
    }
}

proof fn lemma_chosen(
    data: Seq<u8>,
    active: int,
    wanted: int,
    rounds: int,
    digest: Seq<u8>,
    chosen: Seq<Seq<u8>>,
)
    requires
        0 < active,
        properly_chosen(data, active, chosen),
        chosen.len() <= wanted,
    ensures
        properly_chosen(data, active, choose_from(data, active, wanted, rounds, digest, chosen)),
        choose_from(data, active, wanted, rounds, digest, chosen).len() <= wanted,
    decreases rounds,
{
    if rounds > 0 && chosen.len() < wanted {
        let start = le_value(digest.take(8)) % active;
        vstd::arithmetic::div_mod::lemma_mod_bound(le_value(digest.take(8)), active);
        lemma_probe(data, active, start, 0, chosen);
        let next = after_probe(data, active, start, chosen);
        assert forall|k: int| 0 <= k < next.len() implies in_registry(data, active, #[trigger] next[k]) by {
            if k < chosen.len() {
                assert(in_registry(data, active, chosen[k]));
            }
        }
        lemma_chosen(data, active, wanted, rounds - 1, sha256(digest), next);
    }
}

/// The names of an epoch are distinct, each stands in the name registry, and there
/// are two at most.
pub proof fn chosen_names_are_distinct_and_registered(data: Seq<u8>, prescribed_name_count: u8, hashchain: Seq<u8>)
    ensures
        chosen_names(data, prescribed_name_count, hashchain) matches Some(names) ==> {
            &&& properly_chosen(data, le_u32(data, 40), names)
            &&& names.len() <= 2
            &&& names.len() <= prescribed_name_count
        },
{
    if chosen_names(data, prescribed_name_count, hashchain) is Some {
        let active = le_u32(data, 40);
        let wanted = wanted_names(prescribed_name_count, active);
        lemma_chosen(data, active, wanted, wanted * 3, sha256(hashchain), Seq::empty());
    }
}

/// The rewards of all gateways and of all observers come to no more than the epoch
/// has to give, as long as their shares do not exceed the whole.
pub proof fn shares_within_eligible_rewards(ctx: PrescribeEpoch, selected: int)
    requires
        ctx.epoch_settings.gateway_reward_ratio + ctx.epoch_settings.observer_reward_ratio <= RATE_SCALE,
        ctx.epoch.per_gateway_reward == 0,
        ctx.epoch.per_observer_reward == 0,
        0 <= selected,
    ensures
        ({
            let count = sharing_gateways(ctx);
            gateway_reward(ctx) * count + observer_reward(ctx, selected) * selected
                <= ctx.epoch.total_eligible_rewards
        }),
{
    let count: int = sharing_gateways(ctx);
    let total: int = ctx.epoch.total_eligible_rewards as int;
    let g: int = ctx.epoch_settings.gateway_reward_ratio as int;
    let o: int = ctx.epoch_settings.observer_reward_ratio as int;
    let scale: int = RATE_SCALE as int;
    crate::arith::lemma_share_bounded(g, total, scale);
    crate::arith::lemma_share_bounded(o, total, scale);
    let a: int = total * g / scale;
    let b: int = total * o / scale;
    assert(a + b <= total) by {
        vstd::arithmetic::div_mod::lemma_fundamental_div_mod(total * g, scale);
        vstd::arithmetic::div_mod::lemma_fundamental_div_mod(total * o, scale);
        assert(total * g + total * o <= total * scale) by (nonlinear_arith)
            requires
                g + o <= scale,
                total >= 0,
        ;
        assert(scale * a + scale * b <= total * scale);
        assert(a + b <= total) by (nonlinear_arith)
            requires
                scale * a + scale * b <= total * scale,
                scale > 0,
        ;
    }
    lemma_count_not_negative(slots_in(ctx.registry, ctx.epoch), ctx.epoch.active_gateway_count as int);
    if count > 0 {
        vstd::arithmetic::div_mod::lemma_fundamental_div_mod(a, count);
        vstd::arithmetic::div_mod::lemma_mod_bound(a, count);
        vstd::arithmetic::mul::lemma_mul_is_commutative(count, a / count);
        assert(gateway_reward(ctx) * count <= a);
        if selected > 0 {
            vstd::arithmetic::div_mod::lemma_fundamental_div_mod(b, selected);
            vstd::arithmetic::div_mod::lemma_mod_bound(b, selected);
            vstd::arithmetic::mul::lemma_mul_is_commutative(selected, b / selected);
        } else {
            assert(observer_reward(ctx, selected) * selected == 0) by (nonlinear_arith)
                requires
                    selected == 0,
            ;
        }
    } else {
        assert(gateway_reward(ctx) * count == 0) by (nonlinear_arith)
            requires
                gateway_reward(ctx) == 0,
        ;
        assert(observer_reward(ctx, selected) * selected == 0) by (nonlinear_arith)
            requires
                observer_reward(ctx, selected) == 0,
        ;
    }
}

proof fn lemma_count_not_negative(slots: Seq<GatewaySlot>, n: int)
    ensures
        weighted_count(slots, n) >= 0,
    decreases n,
{
    if n > 0 {
        lemma_count_not_negative(slots, n - 1);
    }
}

/// The account at place `i` is the first at `address`, belongs to the program, and holds
/// the gateway of `operator`.
pub open spec fn backs(
    accounts: Seq<PrescribeAccount>,
    i: int,
    address: Pubkey,
    operator: Pubkey,
    program_id: Pubkey,
) -> bool {
    &&& 0 <= i < accounts.len()
    &&& accounts[i].key == address
    &&& forall|j: int| 0 <= j < i ==> (#[trigger] accounts[j]).key != address
    &&& accounts[i].owner == program_id
    &&& accounts[i].gateway matches Some(g) && g.operator == operator
}

proof fn lemma_found(accounts: Seq<PrescribeAccount>, key: Pubkey, i: int)
    requires
        0 <= i <= accounts.len(),
        forall|j: int| 0 <= j < i ==> (#[trigger] accounts[j]).key != key,
    ensures
        match find_from(accounts, key, i) {
            Some(k) => i <= k < accounts.len() && accounts[k].key == key && forall|j: int|
                0 <= j < k ==> (#[trigger] accounts[j]).key != key,
            None => forall|j: int| 0 <= j < accounts.len() ==> (#[trigger] accounts[j]).key != key,
        },
    decreases accounts.len() - i,
{
    if i < accounts.len() && accounts[i].key != key {
        lemma_found(accounts, key, i + 1);
    }
}

/// The observer of a gateway is the one that the gateway's own account names, and it is
/// refused if there is no such account.
pub proof fn observer_is_the_one_the_gateway_names(
    accounts: Vec<PrescribeAccount>,
    expected: Pubkey,
    operator: Pubkey,
    program_id: Pubkey,
    i: int,
    r: Result<Pubkey, GarError>,
)
    requires
        call_ensures(resolve_observer, (&accounts, &expected, &operator, &program_id), r),
    ensures
        backs(accounts@, i, expected, operator, program_id) ==> r == Ok::<_, GarError>(
            accounts@[i].gateway->Some_0.observer_address,
        ),
        r is Ok ==> exists|k: int| backs(accounts@, k, expected, operator, program_id),
        r matches Err(e) ==> e == GarError::InvalidGatewayAccount,
{
    lemma_found(accounts@, expected, 0);
    if r is Ok {
        assert(backs(accounts@, find_from(accounts@, expected, 0)->Some_0, expected, operator, program_id));
    }
}

/// Entry `index` lies within the data, is not all zero, and its name has not been chosen.
pub open spec fn usable(data: Seq<u8>, index: int, chosen: Seq<Seq<u8>>) -> bool {
    &&& 48 + index * 40 + 32 <= data.len()
    &&& exists|b: int| 0 <= b < 32 && #[trigger] data.subrange(48 + index * 40, 48 + index * 40 + 32)[b] != 0
    &&& !chosen.contains(data.subrange(48 + index * 40, 48 + index * 40 + 32))
}

/// Going round from `start`, entry number `p` is the first that can be used.
pub open spec fn first_usable(data: Seq<u8>, active: int, start: int, chosen: Seq<Seq<u8>>, p: int) -> bool {
    &&& 0 <= p < active
    &&& usable(data, (start + p) % active, chosen)
    &&& forall|q: int| 0 <= q < p ==> !usable(data, #[trigger] ((start + q) % active), chosen)
}

proof fn lemma_usable(data: Seq<u8>, index: int, chosen: Seq<Seq<u8>>)
    requires
        0 <= index,
    ensures
        usable(data, index, chosen) <==> (name_entry(data, 48, index) matches Some(name) && !chosen.contains(name)),
        name_entry(data, 48, index) matches Some(name) ==> name == data.subrange(
            48 + index * 40,
            48 + index * 40 + 32,
        ),
{
    let at = 48 + index * 40;
    let zeros = Seq::new(32, |i: int| 0u8);
    if at + 32 <= data.len() {
        let entry = data.subrange(at, at + 32);
        if exists|b: int| 0 <= b < 32 && #[trigger] entry[b] != 0 {
            let b = choose|b: int| 0 <= b < 32 && #[trigger] entry[b] != 0;
            assert(entry[b] != zeros[b]);
        } else {
            assert(entry =~= zeros);
        }
    }
}

proof fn lemma_probe_is_first(data: Seq<u8>, active: int, start: int, probe: int, chosen: Seq<Seq<u8>>)
    requires
        0 < active,
        0 <= start,
        0 <= probe <= active,
        forall|q: int| 0 <= q < probe ==> !usable(data, #[trigger] ((start + q) % active), chosen),
    ensures
        match probe_from(data, active, start, probe, chosen) {
            Some(name) => exists|p: int| #[trigger]
                first_usable(data, active, start, chosen, p) && name == data.subrange(
                    48 + ((start + p) % active) * 40,
                    48 + ((start + p) % active) * 40 + 32,
                ),
            None => forall|q: int| 0 <= q < active ==> !usable(data, #[trigger] ((start + q) % active), chosen),
        },
    decreases active - probe,
{
    if probe < active {
        vstd::arithmetic::div_mod::lemma_mod_bound(start + probe, active);
        let i = (start + probe) % active;
        lemma_usable(data, i, chosen);
        if usable(data, i, chosen) {
            assert(first_usable(data, active, start, chosen, probe));
        } else {
            lemma_probe_is_first(data, active, start, probe + 1, chosen);
        }
    }
}

proof fn lemma_first_is_unique(data: Seq<u8>, active: int, start: int, chosen: Seq<Seq<u8>>, p: int, q: int)
    requires
        first_usable(data, active, start, chosen, p),
        first_usable(data, active, start, chosen, q),
    ensures
        p == q,
{
    if p < q {
        assert(!usable(data, (start + p) % active, chosen));
    } else if q < p {
        assert(!usable(data, (start + q) % active, chosen));
    }
}

/// Looking for a name adds the first entry that can be used, going round all the entries
/// from the start, and nothing if there is none.
pub proof fn probing_adds_the_first_name_that_is_left(
    data: Vec<u8>,
    active: u32,
    start: u64,
    chosen: &mut Vec<[u8; 32]>,
    p: int,
)
    requires
        0 < active,
        start < active,
        call_ensures(probe_names, (&data, active, start, chosen), ()),
    ensures
        ({
            let (before, after) = (names_view(old(chosen)@), names_view(final(chosen)@));
            &&& first_usable(data@, active as int, start as int, before, p) ==> after == before.push(
                data@.subrange(48 + ((start + p) % active as int) * 40, 48 + ((start + p) % active as int) * 40 + 32),
            )
            &&& after != before ==> exists|q: int| first_usable(data@, active as int, start as int, before, q)
        }),
{
    let before = names_view(old(chosen)@);
    lemma_probe_is_first(data@, active as int, start as int, 0, before);
    if first_usable(data@, active as int, start as int, before, p) {
        assert(usable(data@, (start + p) % active as int, before));
        match probe_from(data@, active as int, start as int, 0, before) {
            Some(name) => {
                let q = choose|q: int| #[trigger]
                    first_usable(data@, active as int, start as int, before, q) && name == data@.subrange(
                        48 + ((start + q) % active as int) * 40,
                        48 + ((start + q) % active as int) * 40 + 32,
                    );
                lemma_first_is_unique(data@, active as int, start as int, before, p, q);
            },
            None => {
                assert(!usable(data@, (start + p) % active as int, before));
            },
        }
    }
}

/// Each digest is that of the one before, the first that of the hash chain.
pub open spec fn chained(hashchain: Seq<u8>, digests: Seq<Seq<u8>>) -> bool {
    &&& digests.len() > 0 ==> digests[0] == sha256(hashchain)
    &&& forall|i: int| 0 < i < digests.len() ==> #[trigger] digests[i] == sha256(digests[i - 1])
}

/// The slot into whose part of the weights the digest's first sixteen bytes fall, once
/// they are taken within the sum of the weights.
pub open spec fn falls_into(slots: Seq<GatewaySlot>, digest: Seq<u8>, slot: int) -> bool {
    let value = le_value(digest.take(16)) % weight_total(slots);
    &&& 0 <= slot < slots.len()
    &&& weight_total(slots.take(slot)) <= value < weight_total(slots.take(slot)) + slots[slot].composite_weight
}

/// Gateway `k` is drawn in some round, all rounds before it drawing gateways before it.
pub open spec fn comes_next(drawn: Seq<Pubkey>, rounds: int, gateways: Seq<Pubkey>, k: int) -> bool {
    exists|i: int|
        0 <= i < rounds && #[trigger] drawn[i] == gateways[k] && forall|j: int|
            0 <= j < i ==> gateways.take(k).contains(#[trigger] drawn[j])
}

/// The gateways drawn in `rounds` rounds, each once, in the order in which they first come.
pub open spec fn first_of_each(drawn: Seq<Pubkey>, rounds: int, wanted: int, gateways: Seq<Pubkey>) -> bool {
    &&& gateways.len() <= wanted
    &&& gateways.no_duplicates()
    &&& forall|k: int| 0 <= k < gateways.len() ==> #[trigger] comes_next(drawn, rounds, gateways, k)
    &&& gateways.len() == wanted || forall|i: int| 0 <= i < rounds ==> gateways.contains(#[trigger] drawn[i])
}

proof fn lemma_enough_stays_enough(drawn: Seq<Pubkey>, t: int, rounds: int, wanted: int, gateways: Seq<Pubkey>)
    requires
        first_of_each(drawn, t, wanted, gateways),
        gateways.len() >= wanted,
        t <= rounds,
    ensures
        first_of_each(drawn, rounds, wanted, gateways),
{
    assert forall|k: int| 0 <= k < gateways.len() implies #[trigger] comes_next(drawn, rounds, gateways, k) by {
        assert(comes_next(drawn, t, gateways, k));
    }
}

proof fn lemma_first_of_each(
    slots: Seq<GatewaySlot>,
    wanted: int,
    t: int,
    selected: Seq<Pubkey>,
    digests: Seq<Seq<u8>>,
    drawn: Seq<Pubkey>,
    places: Seq<int>,
)
    requires
        weight_total(slots) > 0,
        0 <= t <= digests.len(),
        drawn.len() == digests.len(),
        places.len() == digests.len(),
        forall|i: int| 0 < i < digests.len() ==> #[trigger] digests[i] == sha256(digests[i - 1]),
        forall|i: int|
            0 <= i < digests.len() ==> falls_into(slots, digests[i], #[trigger] places[i]) && drawn[i]
                == slots[places[i]].address,
        first_of_each(drawn, t, wanted, selected),
        forall|i: int| 0 <= i < t ==> selected.contains(#[trigger] drawn[i]),
    ensures
        t < digests.len() ==> first_of_each(
            drawn,
            digests.len() as int,
            wanted,
            draw_from(slots, slots.len() as int, wanted, digests.len() - t, digests[t], selected),
        ),
        t == digests.len() ==> first_of_each(drawn, digests.len() as int, wanted, selected),
    decreases digests.len() - t,
{
    let n = slots.len() as int;
    if t < digests.len() && selected.len() < wanted {
        let digest = digests[t];
        let value = drawn_value(digest, weight_sum(slots, n));
        assert(slots.take(n) =~= slots);
        lemma_sum_is_total(slots, n);
        lemma_sum_is_total(slots, places[t]);
        assert(falls_into(slots, digests[t], places[t]));
        slots_are_drawn_in_proportion(slots, n, places[t], value);
        let next = after_draw(slots, n, value, selected);
        assert forall|i: int| 0 <= i < t + 1 implies next.contains(#[trigger] drawn[i]) by {
            if i < t {
                let m = choose|m: int| 0 <= m < selected.len() && selected[m] == drawn[i];
                assert(next[m] == drawn[i]);
            } else if !selected.contains(drawn[t]) {
                assert(next[selected.len() as int] == drawn[t]);
            }
        }
        assert(first_of_each(drawn, t + 1, wanted, next)) by {
            if !selected.contains(drawn[t]) {
                let s = selected.len() as int;
                assert(next.take(s) =~= selected);
                assert(drawn[t] == next[s] && forall|j: int|
                    0 <= j < t ==> next.take(s).contains(#[trigger] drawn[j]));
                assert forall|k: int| 0 <= k < next.len() implies #[trigger] comes_next(drawn, t + 1, next, k) by {
                    if k < s {
                        assert(next.take(k) =~= selected.take(k));
                        assert(selected[k] == next[k]);
                        assert(comes_next(drawn, t, selected, k));
                    }
                }
            } else {
                assert forall|k: int| 0 <= k < next.len() implies #[trigger] comes_next(drawn, t + 1, next, k) by {
                    assert(comes_next(drawn, t, selected, k));
                }
            }
        }
        lemma_first_of_each(slots, wanted, t + 1, next, digests, drawn, places);
        let left = digests.len() - t - 1;
        assert(draw_from(slots, n, wanted, left + 1, digest, selected) == draw_from(
            slots,
            n,
            wanted,
            left,
            sha256(digest),
            next,
        ));
        if left > 0 {
            assert(digests[t + 1] == sha256(digests[t]));
        } else {
            assert(draw_from(slots, n, wanted, 0, sha256(digest), next) == next);
        }
        assert(first_of_each(
            drawn,
            digests.len() as int,
            wanted,
            draw_from(slots, n, wanted, left + 1, digest, selected),
        ));
    } else if t < digests.len() {
        lemma_enough_stays_enough(drawn, t, digests.len() as int, wanted, selected);
        assert(draw_from(slots, n, wanted, digests.len() - t, digests[t], selected) == selected);
    }
}

proof fn lemma_observers(ctx: PrescribeEpoch, selected: Seq<Pubkey>, i: int, observers: Seq<Pubkey>)
    requires
        0 <= i <= selected.len(),
        observers.len() == i,
    ensures
        match observers_from(ctx, selected, i, observers) {
            Ok(all) => {
                &&& all.len() == selected.len()
                &&& forall|k: int| 0 <= k < i ==> #[trigger] all[k] == observers[k]
                &&& forall|k: int|
                    i <= k < selected.len() ==> {
                        &&& gateway_pda(#[trigger] selected[k], ctx.program_id) is Some
                        &&& observer_of(
                            ctx.accounts@,
                            gateway_pda(selected[k], ctx.program_id)->Some_0.0,
                            selected[k],
                            ctx.program_id,
                        ) == Ok::<_, GarError>(all[k])
                    }
            },
            Err(e) => exists|k: int|
                i <= k < selected.len() && match gateway_pda(#[trigger] selected[k], ctx.program_id) {
                    None => e == Refusal::NoProgramAddress,
                    Some((address, bump)) => observer_of(ctx.accounts@, address, selected[k], ctx.program_id) is Err
                        && e == Refusal::Gar(GarError::InvalidGatewayAccount),
                },
        },
    decreases selected.len() - i,
{
    if i < selected.len() {
        match gateway_pda(selected[i], ctx.program_id) {
            None => {},
            Some((address, bump)) => match observer_of(ctx.accounts@, address, selected[i], ctx.program_id) {
                Err(e) => {},
                Ok(observer) => {
                    lemma_observers(ctx, selected, i + 1, observers.push(observer));
                },
            },
        }
    }
}

/// The observers of an epoch are drawn by weight, one round after the other: each round
/// draws the slot that a digest falls into, and hashes the digest for the next. A gateway
/// that is drawn again is not counted again. Each observer is the one that the account of
/// the gateway names.
pub proof fn observers_are_drawn_by_weight(
    ctx: PrescribeEpoch,
    now: i64,
    slots: Vec<GatewaySlot>,
    wanted: int,
    digests: Seq<Seq<u8>>,
    places: Seq<int>,
    after: Epoch,
    event: EpochPrescribedEvent,
)
    requires
        ctx.registry.wf(),
        ctx.epoch.active_gateway_count <= 3000,
        call_ensures(prescribe_epoch, (ctx, now), Ok::<_, Refusal>((after, event))),
        call_ensures(gateway_slots, (&ctx.registry, &ctx.epoch), slots),
        wanted <= ctx.epoch_settings.prescribed_observer_count,
        wanted <= ctx.epoch.active_gateway_count,
        wanted <= 50,
        wanted == ctx.epoch_settings.prescribed_observer_count || wanted == ctx.epoch.active_gateway_count || wanted
            == 50,
        digests.len() == 10 * wanted,
        places.len() == 10 * wanted,
        chained(ctx.epoch.hashchain@, digests),
        weight_total(slots@) > 0 ==> forall|i: int|
            0 <= i < digests.len() ==> falls_into(slots@, digests[i], #[trigger] places[i]),
    ensures
        after.observer_count <= 50,
        weight_total(slots@) == 0 ==> after.observer_count == 0,
        weight_total(slots@) > 0 ==> first_of_each(
            Seq::new(digests.len(), |i: int| slots@[places[i]].address),
            digests.len() as int,
            wanted,
            after.prescribed_observer_gateways@.take(after.observer_count as int),
        ),
        forall|k: int|
            0 <= k < after.observer_count ==> {
                let operator = #[trigger] after.prescribed_observer_gateways@[k];
                &&& gateway_pda(operator, ctx.program_id) is Some
                &&& exists|i: int|
                    backs(ctx.accounts@, i, gateway_pda(operator, ctx.program_id)->Some_0.0, operator, ctx.program_id)
                        && ctx.accounts@[i].gateway->Some_0.observer_address == after.prescribed_observers@[k]
            },
{
    let n = ctx.epoch.active_gateway_count as int;
    let gateways = drawn_gateways(ctx);
    let p = prescription(ctx)->Ok_0;
    assert(slots@.take(n) =~= slots@);
    lemma_sum_is_total(slots@, n);
    lemma_weight_sum_bounds(slots@, 0, n);
    assert(after.prescribed_observer_gateways@.take(after.observer_count as int) =~= gateways);
    if weight_total(slots@) > 0 {
        let drawn = Seq::new(digests.len(), |i: int| slots@[places[i]].address);
        if wanted > 0 {
            lemma_first_of_each(slots@, wanted, 0, Seq::empty(), digests, drawn, places);
        }
    }
    lemma_observers(ctx, gateways, 0, Seq::empty());
    assert forall|k: int| 0 <= k < after.observer_count implies ({
        let operator = #[trigger] after.prescribed_observer_gateways@[k];
        &&& gateway_pda(operator, ctx.program_id) is Some
        &&& exists|i: int|
            backs(ctx.accounts@, i, gateway_pda(operator, ctx.program_id)->Some_0.0, operator, ctx.program_id)
                && ctx.accounts@[i].gateway->Some_0.observer_address == after.prescribed_observers@[k]
    }) by {
        let operator = gateways[k];
        assert(after.prescribed_observer_gateways@[k] == operator);
        let address = gateway_pda(operator, ctx.program_id)->Some_0.0;
        lemma_found(ctx.accounts@, address, 0);
        let i = find_from(ctx.accounts@, address, 0)->Some_0;
        assert(backs(ctx.accounts@, i, address, operator, ctx.program_id));
        assert(after.prescribed_observers@[k] == p.observers[k]);
    }
}

proof fn lemma_weighted_filter(slots: Seq<GatewaySlot>, n: int)
    requires
        0 <= n <= slots.len(),
    ensures
        weighted_count(slots, n) == slots.take(n).filter(|s: GatewaySlot| s.composite_weight > 0).len(),
    decreases n,
{
    let weighted = |s: GatewaySlot| s.composite_weight > 0;
    reveal(Seq::filter);
    if n > 0 {
        lemma_weighted_filter(slots, n - 1);
        assert(slots.take(n).drop_last() =~= slots.take(n - 1));
    } else {
        assert(slots.take(0).filter(weighted).len() == 0);
    }
}

proof fn lemma_equal_share(total: u64, ratio: u64, among: int)
    requires
        ratio <= 1_000_000,
        among > 0,
    ensures
        is_part(equal_share(total, ratio, among), total as int, ratio as int, 1_000_000 * among),
{
    let t: int = total as int;
    let x: int = t * ratio;
    crate::arith::lemma_share_bounded(ratio as int, t, 1_000_000);
    assert(x >= 0) by (nonlinear_arith)
        requires
            x == t * ratio,
            t >= 0,
    ;
    vstd::arithmetic::div_mod::lemma_div_denominator(x, 1_000_000, among);
    lemma_quotient_is_part(t, ratio as int, 1_000_000 * among);
}

/// The gateways' part of the epoch's rewards is shared equally among the gateways that
/// carry a weight, and the observers' part among those that were drawn.
pub proof fn rewards_are_shared_equally(
    ctx: PrescribeEpoch,
    now: i64,
    slots: Vec<GatewaySlot>,
    after: Epoch,
    event: EpochPrescribedEvent,
)
    requires
        ctx.registry.wf(),
        ctx.epoch.active_gateway_count <= 3000,
        ctx.epoch_settings.gateway_reward_ratio <= 1_000_000,
        ctx.epoch_settings.observer_reward_ratio <= 1_000_000,
        call_ensures(prescribe_epoch, (ctx, now), Ok::<_, Refusal>((after, event))),
        call_ensures(gateway_slots, (&ctx.registry, &ctx.epoch), slots),
    ensures
        ({
            let sharing = slots@.filter(|s: GatewaySlot| s.composite_weight > 0).len();
            &&& sharing > 0 ==> is_part(
                after.per_gateway_reward as int,
                ctx.epoch.total_eligible_rewards as int,
                ctx.epoch_settings.gateway_reward_ratio as int,
                1_000_000 * sharing as int,
            )
            &&& sharing > 0 && after.observer_count > 0 ==> is_part(
                after.per_observer_reward as int,
                ctx.epoch.total_eligible_rewards as int,
                ctx.epoch_settings.observer_reward_ratio as int,
                1_000_000 * after.observer_count,
            )
            &&& sharing == 0 ==> after.per_gateway_reward == ctx.epoch.per_gateway_reward
            &&& sharing == 0 || after.observer_count == 0 ==> after.per_observer_reward
                == ctx.epoch.per_observer_reward
        }),
{
    let n = ctx.epoch.active_gateway_count as int;
    assert(slots@.take(n) =~= slots@);
    lemma_weighted_filter(slots@, n);
    let sharing = weighted_count(slots@, n);
    if sharing > 0 {
        lemma_equal_share(ctx.epoch.total_eligible_rewards, ctx.epoch_settings.gateway_reward_ratio, sharing);
        if after.observer_count > 0 {
            lemma_equal_share(
                ctx.epoch.total_eligible_rewards,
                ctx.epoch_settings.observer_reward_ratio,
                after.observer_count as int,
            );
        }
    }
}

/// An epoch is prescribed once, after the tally. Besides the observers and names, only the
/// two rewards change. Nothing but a missing account of a gateway with a weight, or a
/// wrong name registry, can stand in its way.
pub proof fn epoch_is_prescribed_once_after_the_tally(
    ctx: PrescribeEpoch,
    now: i64,
    slots: Vec<GatewaySlot>,
    r: Result<(Epoch, EpochPrescribedEvent), Refusal>,
)
    requires
        ctx.registry.wf(),
        ctx.epoch.active_gateway_count <= 3000,
        call_ensures(prescribe_epoch, (ctx, now), r),
        call_ensures(gateway_slots, (&ctx.registry, &ctx.epoch), slots),
    ensures
        r == Err::<(Epoch, EpochPrescribedEvent), Refusal>(Refusal::Gar(GarError::WeightsNotTallied))
            <==> ctx.epoch.weights_tallied == 0,
        r == Err::<(Epoch, EpochPrescribedEvent), Refusal>(Refusal::Gar(GarError::PrescriptionsAlreadyDone))
            <==> ctx.epoch.weights_tallied != 0 && ctx.epoch.prescriptions_done != 0,
        r matches Err(e) ==> match e {
            Refusal::Gar(GarError::WeightsNotTallied) => true,
            Refusal::Gar(GarError::PrescriptionsAlreadyDone) => true,
            Refusal::Gar(GarError::InvalidGatewayAccount) => exists|i: int|
                0 <= i < slots@.len() && (#[trigger] slots@[i]).composite_weight > 0 && {
                    &&& gateway_pda(slots@[i].address, ctx.program_id) is Some
                    &&& forall|k: int|
                        !backs(
                            ctx.accounts@,
                            k,
                            gateway_pda(slots@[i].address, ctx.program_id)->Some_0.0,
                            slots@[i].address,
                            ctx.program_id,
                        )
                },
            Refusal::Gar(GarError::InvalidNameRegistry) => ctx.accounts@.len() > 0 && (ctx.accounts@.last().owner
                != ctx.settings.arns_program_id || name_registry_pda(ctx.settings.arns_program_id) is Some
                && ctx.accounts@.last().key != name_registry_pda(ctx.settings.arns_program_id)->Some_0.0),
            Refusal::NoProgramAddress => name_registry_pda(ctx.settings.arns_program_id) is None || exists|i: int|
                0 <= i < slots@.len() && (#[trigger] slots@[i]).composite_weight > 0 && gateway_pda(
                    slots@[i].address,
                    ctx.program_id,
                ) is None,
            _ => false,
        },
        r matches Ok((after, event)) ==> {
            let before = ctx.epoch;
            &&& after.prescriptions_done == 1
            &&& after == (Epoch {
                observer_count: after.observer_count,
                name_count: after.name_count,
                prescribed_observers: after.prescribed_observers,
                prescribed_observer_gateways: after.prescribed_observer_gateways,
                prescribed_names: after.prescribed_names,
                per_gateway_reward: after.per_gateway_reward,
                per_observer_reward: after.per_observer_reward,
                prescriptions_done: 1,
                ..before
            })
            &&& event.epoch_index == before.epoch_index
            &&& event.observer_count == after.observer_count
            &&& event.per_gateway_reward == after.per_gateway_reward
            &&& event.per_observer_reward == after.per_observer_reward
            &&& event.timestamp == now
        },
{
    let gateways = drawn_gateways(ctx);
    drawn_gateways_are_distinct_and_weighted(ctx);
    lemma_observers(ctx, gateways, 0, Seq::empty());
    if prescribe_refusal(ctx) is None && observers_from(ctx, gateways, 0, Seq::empty()) is Err {
        let e = observers_from(ctx, gateways, 0, Seq::empty())->Err_0;
        let k = choose|k: int|
            0 <= k < gateways.len() && match gateway_pda(#[trigger] gateways[k], ctx.program_id) {
                None => e == Refusal::NoProgramAddress,
                Some((address, bump)) => observer_of(ctx.accounts@, address, gateways[k], ctx.program_id) is Err && e
                    == Refusal::Gar(GarError::InvalidGatewayAccount),
            };
        assert(in_weighted_slot(slots@, ctx.epoch.active_gateway_count as int, gateways[k]));
        match gateway_pda(gateways[k], ctx.program_id) {
            None => {},
            Some((address, bump)) => {
                lemma_found(ctx.accounts@, address, 0);
            },
        }
    }
}

proof fn lemma_mod_reaches(start: int, other: int, p: int, active: int) -> (q: int)
    requires
        0 < active,
        0 <= start < active,
        0 <= other,
        0 <= p,
    ensures
        0 <= q < active,
        (start + q) % active == (other + p) % active,
{
    let x: int = (other + p) % active;
    vstd::arithmetic::div_mod::lemma_mod_bound(other + p, active);
    vstd::arithmetic::div_mod::lemma_small_mod(x as nat, active as nat);
    if x >= start {
        x - start
    } else {
        vstd::arithmetic::div_mod::lemma_mod_add_multiples_vanish(x, active);
        x - start + active
    }
}

/// Where one round finds no name, no later one does.
proof fn lemma_no_name_stays(
    data: Seq<u8>,
    active: int,
    wanted: int,
    rounds: int,
    digest: Seq<u8>,
    chosen: Seq<Seq<u8>>,
    start: int,
)
    requires
        0 < active,
        0 <= start < active,
        forall|q: int| 0 <= q < active ==> !usable(data, #[trigger] ((start + q) % active), chosen),
    ensures
        choose_from(data, active, wanted, rounds, digest, chosen) == chosen,
    decreases rounds,
{
    if rounds > 0 && chosen.len() < wanted {
        let other = le_value(digest.take(8)) % active;
        vstd::arithmetic::div_mod::lemma_mod_bound(le_value(digest.take(8)), active);
        lemma_probe_is_first(data, active, other, 0, chosen);
        if probe_from(data, active, other, 0, chosen) is Some {
            let p = choose|p: int| #[trigger] first_usable(data, active, other, chosen, p);
            let q = lemma_mod_reaches(start, other, p, active);
            assert(!usable(data, (start + q) % active, chosen));
        }
        lemma_no_name_stays(data, active, wanted, rounds - 1, sha256(digest), chosen, start);
    }
}

/// The names of an epoch come from the name registry, if it is passed behind the gateways:
/// two at most, as many as are wanted and there are. The first is the first usable entry
/// from where the first digest points, the second the first other one from where the next
/// digest points, both going round.
pub proof fn names_are_picked_from_the_registry(
    ctx: PrescribeEpoch,
    now: i64,
    active: int,
    start: int,
    next: int,
    p: int,
    q: int,
    after: Epoch,
    event: EpochPrescribedEvent,
)
    requires
        ctx.registry.wf(),
        ctx.epoch.active_gateway_count <= 3000,
        call_ensures(prescribe_epoch, (ctx, now), Ok::<_, Refusal>((after, event))),
        ctx.accounts@.len() > after.observer_count,
        ctx.accounts@.last().data@.len() >= 48,
        active == ctx.accounts@.last().data@[40] + 256 * ctx.accounts@.last().data@[41] + 65_536
            * ctx.accounts@.last().data@[42] + 16_777_216 * ctx.accounts@.last().data@[43],
        active > 0,
        start == le_value(sha256(ctx.epoch.hashchain@).take(8)) % active,
        next == le_value(sha256(sha256(ctx.epoch.hashchain@)).take(8)) % active,
    ensures
        ({
            let account = ctx.accounts@.last();
            let data = account.data@;
            let wanted = ctx.epoch_settings.prescribed_name_count;
            let (first, second) = (48 + ((start + p) % active) * 40, 48 + ((next + q) % active) * 40);
            let taken = seq![data.subrange(first, first + 32)];
            &&& account.owner == ctx.settings.arns_program_id
            &&& name_registry_pda(ctx.settings.arns_program_id) is Some
            &&& account.key == name_registry_pda(ctx.settings.arns_program_id)->Some_0.0
            &&& wanted == 0 ==> after.name_count == ctx.epoch.name_count && after.prescribed_names
                == ctx.epoch.prescribed_names
            &&& wanted > 0 ==> after.name_count <= 2 && after.name_count <= wanted && after.name_count <= active
            &&& wanted > 0 && first_usable(data, active, start, Seq::empty(), p) ==> after.name_count >= 1
                && after.prescribed_names@[0]@ == data.subrange(first, first + 32)
            &&& wanted > 0 && (forall|i: int| !first_usable(data, active, start, Seq::empty(), i))
                ==> after.name_count == 0
            &&& wanted > 1 && active > 1 && first_usable(data, active, start, Seq::empty(), p) && first_usable(
                data,
                active,
                next,
                taken,
                q,
            ) ==> after.name_count == 2 && after.prescribed_names@[1]@ == data.subrange(second, second + 32)
            &&& wanted > 1 && active > 1 && first_usable(data, active, start, Seq::empty(), p) && (forall|i: int|
                !first_usable(data, active, next, taken, i)) ==> after.name_count == 1
        }),
{
    let account = ctx.accounts@.last();
    let data = account.data@;
    let pr = prescription(ctx)->Ok_0;
    assert(active == le_u32(data, 40));
    let none = Seq::<Seq<u8>>::empty();
    let wanted = wanted_names(ctx.epoch_settings.prescribed_name_count, active);
    let d0 = sha256(ctx.epoch.hashchain@);
    let d1 = sha256(d0);
    vstd::arithmetic::div_mod::lemma_mod_bound(le_value(d0.take(8)), active);
    vstd::arithmetic::div_mod::lemma_mod_bound(le_value(d1.take(8)), active);
    if wanted > 0 {
        let names = pr.names->Some_0;
        chosen_names_are_distinct_and_registered(data, ctx.epoch_settings.prescribed_name_count, ctx.epoch.hashchain@);
        lemma_chosen(data, active, wanted, wanted * 3, d0, none);
        lemma_probe_is_first(data, active, start, 0, none);
        let one = after_probe(data, active, start, none);
        assert(names == choose_from(data, active, wanted, wanted * 3 - 1, d1, one));
        match probe_from(data, active, start, 0, none) {
            None => {
                lemma_no_name_stays(data, active, wanted, wanted * 3 - 1, d1, none, start);
                if first_usable(data, active, start, none, p) {
                    assert(!usable(data, (start + p) % active, none));
                }
            },
            Some(name) => {
                let p2 = choose|p2: int| #[trigger]
                    first_usable(data, active, start, none, p2) && name == data.subrange(
                        48 + ((start + p2) % active) * 40,
                        48 + ((start + p2) % active) * 40 + 32,
                    );
                if first_usable(data, active, start, none, p) {
                    lemma_first_is_unique(data, active, start, none, p, p2);
                    assert(one =~= seq![name]);
                    assert(one.len() == 1);
                    lemma_choose_keeps(data, active, wanted, wanted * 3 - 1, d1, one);
                    if wanted > 1 {
                        lemma_probe_is_first(data, active, next, 0, one);
                        let two = after_probe(data, active, next, one);
                        assert(names == choose_from(data, active, wanted, wanted * 3 - 2, sha256(d1), two));
                        match probe_from(data, active, next, 0, one) {
                            None => {
                                lemma_no_name_stays(data, active, wanted, wanted * 3 - 2, sha256(d1), one, next);
                                if first_usable(data, active, next, one, q) {
                                    assert(!usable(data, (next + q) % active, one));
                                }
                            },
                            Some(other) => {
                                let q2 = choose|q2: int| #[trigger]
                                    first_usable(data, active, next, one, q2) && other == data.subrange(
                                        48 + ((next + q2) % active) * 40,
                                        48 + ((next + q2) % active) * 40 + 32,
                                    );
                                if first_usable(data, active, next, one, q) {
                                    lemma_first_is_unique(data, active, next, one, q, q2);
                                }
                                assert(two.len() == 2);
                            },
                        }
                    }
                }
            },
        }
    }
}

/// What has been chosen stays.
proof fn lemma_choose_keeps(
    data: Seq<u8>,
    active: int,
    wanted: int,
    rounds: int,
    digest: Seq<u8>,
    chosen: Seq<Seq<u8>>,
)
    requires
        chosen.len() > 0,
    ensures
        choose_from(data, active, wanted, rounds, digest, chosen).len() >= chosen.len(),
        choose_from(data, active, wanted, rounds, digest, chosen)[0] == chosen[0],
    decreases rounds,
{
    if rounds > 0 && chosen.len() < wanted {
        lemma_choose_keeps(
            data,
            active,
            wanted,
            rounds - 1,
            sha256(digest),
            after_probe(data, active, le_value(digest.take(8)) % active, chosen),
        );
    }
}

/// Without a name registry behind the gateways, or with one that ends before its entries or
/// holds none, the names stay as they are.
pub proof fn names_stay_without_a_registry(
    ctx: PrescribeEpoch,
    now: i64,
    after: Epoch,
    event: EpochPrescribedEvent,
)
    requires
        ctx.registry.wf(),
        ctx.epoch.active_gateway_count <= 3000,
        call_ensures(prescribe_epoch, (ctx, now), Ok::<_, Refusal>((after, event))),
        ctx.accounts@.len() <= after.observer_count || ctx.accounts@.last().data@.len() < 48 || ({
            let data = ctx.accounts@.last().data@;
            data[40] == 0 && data[41] == 0 && data[42] == 0 && data[43] == 0
        }),
    ensures
        after.name_count == ctx.epoch.name_count,
        after.prescribed_names == ctx.epoch.prescribed_names,
{
}

} // verus!
