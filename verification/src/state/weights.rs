//! The weights by which observers are drawn.

use vstd::prelude::*;
use crate::arith::{cap_to_u64, cap_u64, lesser, low64, mul_wide, saturating_mul_u128, truncate_u128};
use crate::arith::{is_part, lemma_quotient_is_part};
use crate::state::accounts::GatewayStats;

verus! {

/// The weights of a gateway in one epoch, scaled by `RATE_SCALE`.
#[derive(Clone, Copy, Debug, PartialEq, Eq, Structural)]
pub struct GatewayWeights {
    /// Total stake over the minimum operator stake.
    pub stake_weight: u64,
    /// Time since joining over the tenure duration, up to the largest tenure
    /// weight.
    pub tenure_weight: u64,
    /// `(1 + passed epochs) / (1 + epochs)`.
    pub gateway_performance_ratio: u64,
    /// `(1 + observed epochs) / (1 + prescribed epochs)`.
    pub observer_performance_ratio: u64,
    /// The product of the four.
    pub composite_weight: u64,
    /// The composite weight over the sum of all composite weights.
    pub normalized_composite_weight: u64,
    /// The epoch for which the weights were computed.
    pub weights_epoch: u64,
}

/// Total stake over the minimum operator stake; one where there is no minimum.
pub open spec fn stake_weight_of(total_stake: u64, min_operator_stake: u64, scale: u64) -> int {
    if min_operator_stake > 0 {
        low64(total_stake * scale / min_operator_stake as int)
    } else {
        scale as int
    }
}

pub open spec fn time_running(start: i64, now: i64) -> int {
    if now >= start {
        now - start
    } else {
        0
    }
}

/// Time since joining over the tenure duration, at most the largest tenure
/// weight; a gateway that has just joined counts one second.
pub open spec fn tenure_weight_of(running: int, duration: i64, max_tenure_weight: u64, scale: u64) -> int {
    if duration <= 0 {
        0
    } else if running > 0 {
        low64(lesser(running * scale / duration as int, max_tenure_weight * scale))
    } else {
        scale as int / duration as int
    }
}

/// `(1 + achieved) / (1 + possible)`.
pub open spec fn performance_ratio_of(achieved: u32, possible: u32, scale: u64) -> int {
    low64((1 + achieved) * scale / (1 + possible))
}

/// The product of the four weights over the cube of the scale; nothing where the
/// product does not fit in 128 bits.
pub open spec fn composite_weight_of(stake: int, tenure: int, gateway: int, observer: int, scale: int) -> int {
    let three = stake * tenure * gateway;
    let product = if three > u128::MAX || three * observer > u128::MAX {
        0
    } else {
        three * observer
    };
    if scale == 0 {
        0
    } else {
        cap_u64(product / cubed(scale))
    }
}

/// The cube of `scale`, or the largest `u128` where that is smaller.
pub open spec fn cubed(scale: int) -> int {
    lesser(scale * scale * scale, u128::MAX as int)
}

impl GatewayWeights {
    pub const SIZE: usize = 8 * 7;

    pub open spec fn zero() -> GatewayWeights {
        GatewayWeights {
            stake_weight: 0,
            tenure_weight: 0,
            gateway_performance_ratio: 0,
            observer_performance_ratio: 0,
            composite_weight: 0,
            normalized_composite_weight: 0,
            weights_epoch: 0,
        }
    }

    /// The weights of a gateway with the given stake, times and record. The
    /// normalized weight and the epoch are left for the caller to fill in.
    pub fn compute(
        total_stake: u64,
        min_operator_stake: u64,
        start_timestamp: i64,
        current_timestamp: i64,
        tenure_weight_duration: i64,
        max_tenure_weight: u64,
        stats: &GatewayStats,
        rate_scale: u64,
    ) -> (r: GatewayWeights)
        requires
            time_running(start_timestamp, current_timestamp) <= i64::MAX,
        ensures
            r == computed_weights(
                total_stake,
                min_operator_stake,
                start_timestamp,
                current_timestamp,
                tenure_weight_duration,
                max_tenure_weight,
                *stats,
                rate_scale,
            ),
    {
        let scale: u128 = rate_scale as u128;
        let stake_weight: u64 = if min_operator_stake > 0 {
            truncate_u128(mul_wide(total_stake, rate_scale) / (min_operator_stake as u128))
        } else {
            rate_scale
        };
        let running: i64 = if current_timestamp >= start_timestamp {
            current_timestamp - start_timestamp
        } else {
            0
        };
        let tenure_weight: u64 = if tenure_weight_duration > 0 && running > 0 {
            let tw: u128 = mul_wide(running as u64, rate_scale) / (tenure_weight_duration as u128);
            let max_tw: u128 = mul_wide(max_tenure_weight, rate_scale);
            if tw <= max_tw {
                truncate_u128(tw)
            } else {
                truncate_u128(max_tw)
            }
        } else if running == 0 && tenure_weight_duration > 0 {
            proof {
                vstd::arithmetic::div_mod::lemma_div_is_ordered_by_denominator(
                    rate_scale as int,
                    1,
                    tenure_weight_duration as int,
                );
            }
            (scale / (tenure_weight_duration as u128)) as u64
        } else {
            0
        };
        let gateway_performance_ratio: u64 = performance_ratio(
            stats.passed_epochs,
            stats.total_epochs,
            rate_scale,
        );
        let observer_performance_ratio: u64 = performance_ratio(
            stats.observed_epochs,
            stats.prescribed_epochs,
            rate_scale,
        );
        let composite_weight: u64 = composite_weight(
            stake_weight,
            tenure_weight,
            gateway_performance_ratio,
            observer_performance_ratio,
            rate_scale,
        );
        GatewayWeights {
            stake_weight,
            tenure_weight,
            gateway_performance_ratio,
            observer_performance_ratio,
            composite_weight,
            normalized_composite_weight: 0,
            weights_epoch: 0,
        }
    }
}

impl Default for GatewayWeights {
    fn default() -> (r: GatewayWeights)
        ensures
            r == GatewayWeights::zero(),
    {
        GatewayWeights {
            stake_weight: 0,
            tenure_weight: 0,
            gateway_performance_ratio: 0,
            observer_performance_ratio: 0,
            composite_weight: 0,
            normalized_composite_weight: 0,
            weights_epoch: 0,
        }
    }
}

/// What `GatewayWeights::compute` returns.
pub open spec fn computed_weights(
    total_stake: u64,
    min_operator_stake: u64,
    start: i64,
    now: i64,
    tenure_weight_duration: i64,
    max_tenure_weight: u64,
    stats: GatewayStats,
    scale: u64,
) -> GatewayWeights {
    let stake = stake_weight_of(total_stake, min_operator_stake, scale);
    let tenure = tenure_weight_of(time_running(start, now), tenure_weight_duration, max_tenure_weight, scale);
    let gateway = performance_ratio_of(stats.passed_epochs, stats.total_epochs, scale);
    let observer = performance_ratio_of(stats.observed_epochs, stats.prescribed_epochs, scale);
    GatewayWeights {
        stake_weight: stake as u64,
        tenure_weight: tenure as u64,
        gateway_performance_ratio: gateway as u64,
        observer_performance_ratio: observer as u64,
        composite_weight: composite_weight_of(stake, tenure, gateway, observer, scale as int) as u64,
        normalized_composite_weight: 0,
        weights_epoch: 0,
    }
}

fn performance_ratio(achieved: u32, possible: u32, rate_scale: u64) -> (r: u64)
    ensures
        r == performance_ratio_of(achieved, possible, rate_scale),
{
    let numerator: u128 = mul_wide(1 + achieved as u64, rate_scale);
    let denominator: u128 = 1 + possible as u128;
    truncate_u128(numerator / denominator)
}

fn composite_weight(stake: u64, tenure: u64, gateway: u64, observer: u64, rate_scale: u64) -> (r: u64)
    ensures
        r == composite_weight_of(
            stake as int,
            tenure as int,
            gateway as int,
            observer as int,
            rate_scale as int,
        ),
{
    let two: u128 = mul_wide(stake, tenure);
    let three: u128 = match two.checked_mul(gateway as u128) {
        Some(v) => v,
        None => 0,
    };
    let product: u128 = match three.checked_mul(observer as u128) {
        Some(v) => v,
        None => 0,
    };
    let squared: u128 = mul_wide(rate_scale, rate_scale);
    let scale_cubed: u128 = saturating_mul_u128(squared, rate_scale as u128);
    if rate_scale == 0 {
        assert(scale_cubed == 0) by (nonlinear_arith)
            requires
                rate_scale == 0,
                squared * rate_scale == scale_cubed || squared * rate_scale > u128::MAX,
        ;
        return 0;
    }
    proof {
        let s: int = rate_scale as int;
        assert(s * s * s >= 1) by (nonlinear_arith)
            requires
                s >= 1,
        ;
        let o: int = observer as int;
        assert(0 * o == 0);
    }
    cap_to_u64(product / scale_cubed)
}

/// A gateway without any stake has no weight, whatever its record, so that it is
/// never drawn.
pub proof fn zero_stake_has_no_weight(
    min_operator_stake: u64,
    start: i64,
    now: i64,
    tenure_weight_duration: i64,
    max_tenure_weight: u64,
    stats: GatewayStats,
    scale: u64,
)
    requires
        min_operator_stake > 0,
    ensures
        computed_weights(
            0,
            min_operator_stake,
            start,
            now,
            tenure_weight_duration,
            max_tenure_weight,
            stats,
            scale,
        ).composite_weight == 0,
{
    let min: int = min_operator_stake as int;
    let tenure: int = tenure_weight_of(time_running(start, now), tenure_weight_duration, max_tenure_weight, scale);
    let gateway: int = performance_ratio_of(stats.passed_epochs, stats.total_epochs, scale);
    let observer: int = performance_ratio_of(stats.observed_epochs, stats.prescribed_epochs, scale);
    let s: int = scale as int;
    assert(0 * s == 0);
    assert(0int / min == 0) by (nonlinear_arith)
        requires
            min > 0,
    ;
    assert(0 * tenure * gateway == 0) by (nonlinear_arith);
    assert(0 * observer == 0);
    if s > 0 {
        assert(s * s * s >= 1) by (nonlinear_arith)
            requires
                s >= 1,
        ;
        let c: int = cubed(s);
        assert(0int / c == 0) by (nonlinear_arith)
            requires
                c >= 1,
        ;
    }
}

/// Each weight is what it stands for: the stake over the minimum, the time since
/// joining over the tenure duration up to the largest tenure weight, and the record
/// of passed and observed epochs. The composite weight is the product of the four,
/// as the fields have them.
pub proof fn weights_measure_stake_tenure_and_record(
    total_stake: u64,
    min_operator_stake: u64,
    start: i64,
    now: i64,
    tenure_weight_duration: i64,
    max_tenure_weight: u64,
    stats: GatewayStats,
    scale: u64,
    w: GatewayWeights,
)
    requires
        call_ensures(
            GatewayWeights::compute,
            (
                total_stake,
                min_operator_stake,
                start,
                now,
                tenure_weight_duration,
                max_tenure_weight,
                &stats,
                scale,
            ),
            w,
        ),
        scale > 0,
    ensures
        min_operator_stake == 0 ==> w.stake_weight == scale,
        min_operator_stake > 0 && total_stake * scale < 0x1_0000_0000_0000_0000 * min_operator_stake ==> is_part(
            w.stake_weight as int,
            total_stake as int,
            scale as int,
            min_operator_stake as int,
        ),
        tenure_weight_duration <= 0 ==> w.tenure_weight == 0,
        tenure_weight_duration > 0 && now <= start ==> is_part(
            w.tenure_weight as int,
            1,
            scale as int,
            tenure_weight_duration as int,
        ),
        tenure_weight_duration > 0 && now > start && max_tenure_weight * scale <= u64::MAX ==> {
            &&& now - start >= max_tenure_weight * tenure_weight_duration ==> w.tenure_weight == max_tenure_weight
                * scale
            &&& now - start <= max_tenure_weight * tenure_weight_duration ==> is_part(
                w.tenure_weight as int,
                now - start,
                scale as int,
                tenure_weight_duration as int,
            )
        },
        stats.passed_epochs <= stats.total_epochs ==> is_part(
            w.gateway_performance_ratio as int,
            1 + stats.passed_epochs,
            scale as int,
            1 + stats.total_epochs,
        ),
        stats.observed_epochs <= stats.prescribed_epochs ==> is_part(
            w.observer_performance_ratio as int,
            1 + stats.observed_epochs,
            scale as int,
            1 + stats.prescribed_epochs,
        ),
        ({
            let product = w.stake_weight * w.tenure_weight * w.gateway_performance_ratio
                * w.observer_performance_ratio;
            scale * scale * scale <= u128::MAX && product <= u128::MAX ==> {
                &&& product / (scale * scale * scale) <= u64::MAX ==> w.composite_weight == product / (scale * scale
                    * scale)
                &&& product / (scale * scale * scale) > u64::MAX ==> w.composite_weight == u64::MAX
            }
        }),
        w.stake_weight == 0 || w.tenure_weight == 0 || w.gateway_performance_ratio == 0
            || w.observer_performance_ratio == 0 ==> w.composite_weight == 0,
        w.normalized_composite_weight == 0,
        w.weights_epoch == 0,
{
    let s: int = scale as int;
    let min: int = min_operator_stake as int;
    let dur: int = tenure_weight_duration as int;
    let big: int = 0x1_0000_0000_0000_0000;
    if min > 0 {
        let t: int = total_stake as int;
        lemma_quotient_is_part(t, s, min);
        if t * s < big * min {
            assert(t * s / min < big) by (nonlinear_arith)
                requires
                    t * s < big * min,
                    min > 0,
            ;
            assert(t * s >= 0) by (nonlinear_arith)
                requires
                    t >= 0,
                    s >= 0,
            ;
            vstd::arithmetic::div_mod::lemma_div_pos_is_pos(t * s, min);
        }
    }
    if dur > 0 {
        lemma_quotient_is_part(1, s, dur);
        vstd::arithmetic::div_mod::lemma_div_is_ordered_by_denominator(s, 1, dur);
        vstd::arithmetic::div_mod::lemma_div_pos_is_pos(s, dur);
        if now > start && max_tenure_weight * scale <= u64::MAX {
            let running: int = now - start;
            let m: int = max_tenure_weight as int;
            lemma_quotient_is_part(running, s, dur);
            assert(running * s >= 0) by (nonlinear_arith)
                requires
                    running >= 0,
                    s >= 0,
            ;
            vstd::arithmetic::div_mod::lemma_div_pos_is_pos(running * s, dur);
            assert(m * s >= 0) by (nonlinear_arith)
                requires
                    m >= 0,
                    s >= 0,
            ;
            assert((m * s) * dur == (m * dur) * s) by (nonlinear_arith);
            assert((m * s) * dur / dur == m * s) by (nonlinear_arith)
                requires
                    dur > 0,
            ;
            if running >= m * dur {
                assert(running * s >= (m * dur) * s) by (nonlinear_arith)
                    requires
                        running >= m * dur,
                        s >= 0,
                ;
                vstd::arithmetic::div_mod::lemma_div_is_ordered((m * s) * dur, running * s, dur);
            }
            if running <= m * dur {
                assert(running * s <= (m * dur) * s) by (nonlinear_arith)
                    requires
                        running <= m * dur,
                        s >= 0,
                ;
                vstd::arithmetic::div_mod::lemma_div_is_ordered(running * s, (m * s) * dur, dur);
            }
        }
    }
    if stats.passed_epochs <= stats.total_epochs {
        lemma_ratio_is_part(stats.passed_epochs, stats.total_epochs, scale);
    }
    if stats.observed_epochs <= stats.prescribed_epochs {
        lemma_ratio_is_part(stats.observed_epochs, stats.prescribed_epochs, scale);
    }
    assert(s * s * s >= 1) by (nonlinear_arith)
        requires
            s >= 1,
    ;
    let (a, b, c, d) = (
        w.stake_weight as int,
        w.tenure_weight as int,
        w.gateway_performance_ratio as int,
        w.observer_performance_ratio as int,
    );
    let cube: int = s * s * s;
    let three: int = a * b * c;
    assert(three >= 0) by (nonlinear_arith)
        requires
            three == a * b * c,
            a >= 0,
            b >= 0,
            c >= 0,
    ;
    assert(three * d >= 0) by (nonlinear_arith)
        requires
            three >= 0,
            d >= 0,
    ;
    if three > u128::MAX && three * d <= u128::MAX {
        assert(d == 0) by (nonlinear_arith)
            requires
                three > u128::MAX,
                three * d <= u128::MAX,
                d >= 0,
        ;
        assert(three * 0 == 0);
    }
    vstd::arithmetic::div_mod::lemma_div_pos_is_pos(three * d, cube);
    if a == 0 || b == 0 || c == 0 || d == 0 {
        assert(three * d == 0) by (nonlinear_arith)
            requires
                three == a * b * c,
                a == 0 || b == 0 || c == 0 || d == 0,
        ;
        let k: int = cubed(s);
        assert(0int / k == 0) by (nonlinear_arith)
            requires
                k >= 1,
        ;
    }
}

proof fn lemma_ratio_is_part(achieved: u32, possible: u32, scale: u64)
    requires
        achieved <= possible,
    ensures
        is_part(
            performance_ratio_of(achieved, possible, scale),
            1 + achieved,
            scale as int,
            1 + possible,
        ),
{
    let p: int = 1 + possible;
    let s: int = scale as int;
    lemma_quotient_is_part(1 + achieved, s, p);
    crate::arith::lemma_share_bounded(1 + achieved, s, p);
}

} // verus!
