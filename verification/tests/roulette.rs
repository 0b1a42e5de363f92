use ario_gar::instructions::roulette::{draw_observer, live_total as live_total_of, roulette_select as select};
use ario_gar::pubkey::Pubkey;
use ario_gar::state::GatewaySlot;

fn slots(weights: &[u64]) -> Vec<GatewaySlot> {
    weights
        .iter()
        .enumerate()
        .map(|(i, &weight)| {
            let mut slot =
                GatewaySlot::fresh(Pubkey::new_from_array([i as u8 + 1; 32]), 0, GatewaySlot::STATUS_JOINED);
            slot.composite_weight = weight;
            slot
        })
        .collect()
}

fn live_total(weights: &[u64]) -> u128 {
    live_total_of(&slots(weights), weights.len())
}

fn roulette_select(weights: &[u64], random_value: u128) -> Option<usize> {
    select(&slots(weights), weights.len(), random_value)
}

#[test]
fn live_total_excludes_leaver_weight() {
    let pre_tally = [1u64, 100, 1];
    let post_leave = [1u64, 0, 1];
    assert_eq!(live_total(&pre_tally), 102);
    assert_eq!(live_total(&post_leave), 2);
}

#[test]
fn no_dead_range_post_leave() {
    let post_leave = [1u64, 0, 1];
    let total = live_total(&post_leave);
    for rv in 0..total {
        let pick = roulette_select(&post_leave, rv)
            .unwrap_or_else(|| panic!("random_value {rv} fell off the end of {post_leave:?}"));
        assert_ne!(pick, 1, "leaver slot (index 1) must never be selected");
        assert!(post_leave[pick] > 0, "selected slot must have non-zero composite_weight");
    }
}

#[test]
fn distribution_is_uniform_post_leave() {
    let post_leave = [1u64, 0, 1];
    let mut hits = [0usize; 3];
    for rv in 0..live_total(&post_leave) {
        hits[roulette_select(&post_leave, rv).unwrap()] += 1;
    }
    assert_eq!(hits, [1, 0, 1]);
}

#[test]
fn pre_fix_dead_range_matches_codex_poc() {
    let post_leave = [1u64, 0, 1];
    let stale_total = 102u128;
    let mut main_hits = [0usize; 3];
    let mut dead_range = 0usize;
    for rv in 0..stale_total {
        match roulette_select(&post_leave, rv) {
            Some(idx) => main_hits[idx] += 1,
            None => dead_range += 1,
        }
    }
    assert_eq!(main_hits, [1, 0, 1]);
    assert_eq!(dead_range, 100);
}

#[test]
fn all_zero_weights_returns_none() {
    let weights = [0u64, 0, 0];
    assert_eq!(live_total(&weights), 0);
    assert_eq!(roulette_select(&weights, 0), None);
}

#[test]
fn single_nonzero_slot_wins_everything() {
    let weights = [0u64, 0, 5, 0];
    assert_eq!(live_total(&weights), 5);
    for rv in 0..live_total(&weights) {
        assert_eq!(roulette_select(&weights, rv), Some(2));
    }
}

#[test]
fn leaver_at_tail_is_skipped() {
    let weights = [1u64, 1, 0];
    assert_eq!(live_total(&weights), 2);
    for rv in 0..live_total(&weights) {
        let pick = roulette_select(&weights, rv).unwrap();
        assert_ne!(pick, 2, "tail leaver (zero weight) must not be selected");
    }
}

#[test]
fn slots_are_drawn_as_often_as_they_weigh() {
    let weights = [3u64, 0, 2, 5];
    let mut hits = [0u64; 4];
    for rv in 0..live_total(&weights) {
        hits[roulette_select(&weights, rv).unwrap()] += 1;
    }
    assert_eq!(hits, weights);
}

#[test]
fn a_gateway_is_drawn_once() {
    let registry = slots(&[3, 0, 2]);
    let mut selected: Vec<Pubkey> = Vec::new();
    for rv in [0u128, 1, 2, 4, 3, 4] {
        draw_observer(&registry, 3, rv, &mut selected);
    }
    assert_eq!(selected, vec![registry[0].address, registry[2].address]);
}
