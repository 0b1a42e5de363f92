//! The record of one epoch.

use vstd::prelude::*;
use crate::pubkey::Pubkey;

verus! {

/// One epoch, with the observers and names prescribed for it and the failures
/// reported of each gateway.
#[derive(Clone, Copy, Debug)]
pub struct Epoch {
    pub epoch_index: u64,
    pub start_timestamp: i64,
    pub end_timestamp: i64,
    pub total_eligible_rewards: u64,
    pub per_gateway_reward: u64,
    pub per_observer_reward: u64,
    pub reward_rate: u64,
    /// The two halves of the sum of all composite weights.
    pub total_composite_weight_lo: u64,
    pub total_composite_weight_hi: u64,
    /// The source of the epoch's randomness.
    pub hashchain: [u8; 32],
    /// How many gateways joined by the epoch's start.
    pub active_gateway_count: u32,
    pub distribution_index: u32,
    pub tally_index: u32,
    pub observer_count: u8,
    pub name_count: u8,
    pub observations_submitted: u8,
    pub rewards_distributed: u8,
    pub weights_tallied: u8,
    pub prescriptions_done: u8,
    pub bump: u8,
    /// Observations whose accounts have been closed. The epoch closes only when
    /// all of them have.
    pub observations_closed: u8,
    /// Failures reported of each gateway of the epoch.
    pub failure_counts: [u16; 3000],
    /// The addresses that may submit observations.
    pub prescribed_observers: [Pubkey; 50],
    /// The operators of the gateways behind those addresses.
    pub prescribed_observer_gateways: [Pubkey; 50],
    pub prescribed_names: [[u8; 32]; 2],
    /// One bit per prescribed observer, lowest bit first: set once it has
    /// submitted.
    pub has_observed: [u8; 7],
    pub version_bytes: [u8; 3],
    pub _padding2: [u8; 2],
}

/// Bit `idx` of a bitmap, lowest bit of each byte first.
pub open spec fn bit_at(bits: Seq<u8>, idx: int) -> bool {
    byte_bit(bits[idx / 8], (idx % 8) as u8)
}

/// Bit `k` of a byte.
pub open spec fn byte_bit(byte: u8, k: u8) -> bool {
    (byte >> k) & 1 == 1
}

proof fn lemma_set_bit(byte: u8, k: u8, j: u8)
    requires
        k < 8,
        j < 8,
    ensures
        byte_bit(byte | (1u8 << k), j) == (byte_bit(byte, j) || j == k),
{
    assert((((byte | (1u8 << k)) >> j) & 1 == 1) == ((byte >> j) & 1 == 1 || j == k)) by (bit_vector)
        requires
            k < 8,
            j < 8,
    ;
}

impl Epoch {
    pub const SIZE: usize = 9400;

    /// The sum of all composite weights.
    pub open spec fn composite_total(self) -> int {
        self.total_composite_weight_hi * 0x1_0000_0000_0000_0000 + self.total_composite_weight_lo
    }

    /// The same epoch with another sum of composite weights.
    pub open spec fn with_composite_total(self, val: int) -> Epoch {
        Epoch {
            total_composite_weight_lo: (val % 0x1_0000_0000_0000_0000) as u64,
            total_composite_weight_hi: (val / 0x1_0000_0000_0000_0000) as u64,
            ..self
        }
    }

    /// The sum of all composite weights.
    pub fn total_composite_weight(&self) -> (r: u128)
        ensures
            r == self.composite_total(),
    {
        let hi: u128 = self.total_composite_weight_hi as u128;
        let lo: u128 = self.total_composite_weight_lo as u128;
        assert((hi << 64 | lo) == hi * 0x1_0000_0000_0000_0000u128 + lo) by (bit_vector)
            requires
                hi <= 0xffff_ffff_ffff_ffffu128,
                lo <= 0xffff_ffff_ffff_ffffu128,
        ;
        hi << 64 | lo
    }

    pub fn set_total_composite_weight(&mut self, val: u128)
        ensures
            *final(self) == old(self).with_composite_total(val as int),
            final(self).composite_total() == val,
    {
        assert((val >> 64) == val / 0x1_0000_0000_0000_0000u128) by (bit_vector);
        assert((val >> 64) <= 0xffff_ffff_ffff_ffffu128) by (bit_vector);
        assert((val as u64) == val % 0x1_0000_0000_0000_0000u128) by (bit_vector);
        self.total_composite_weight_lo = val as u64;
        self.total_composite_weight_hi = (val >> 64) as u64;
    }

    pub fn add_composite_weight(&mut self, val: u64)
        ensures
            *final(self) == old(self).with_composite_total(
                crate::arith::lesser(old(self).composite_total() + val, u128::MAX as int),
            ),
            final(self).composite_total() == crate::arith::lesser(
                old(self).composite_total() + val,
                u128::MAX as int,
            ),
    {
        let current: u128 = self.total_composite_weight();
        self.set_total_composite_weight(current.saturating_add(val as u128));
    }

    /// Whether the prescribed observer `idx` has submitted.
    pub open spec fn observed(self, idx: int) -> bool {
        idx < 50 && bit_at(self.has_observed@, idx)
    }

    /// Records that the prescribed observer `idx` has submitted. There are fifty
    /// at most; a larger index is ignored.
    pub fn set_observed(&mut self, idx: usize)
        ensures
            *final(self) == (Epoch { has_observed: final(self).has_observed, ..*old(self) }),
            idx < 50 ==> final(self).has_observed@ == old(self).has_observed@.update(
                idx as int / 8,
                old(self).has_observed@[idx as int / 8] | (1u8 << ((idx % 8) as u8)),
            ),
            idx >= 50 ==> *final(self) == *old(self),
            forall|j: int| 0 <= j < 50 ==> (#[trigger] final(self).observed(j) <==> old(self).observed(j)
                || j == idx),
    {
        if idx < 50 {
            let k: u8 = (idx % 8) as u8;
            self.has_observed[idx / 8] = self.has_observed[idx / 8] | (1u8 << k);
            proof {
                assert forall|j: int| 0 <= j < 50 implies (#[trigger] self.observed(j) <==> old(
                    self,
                ).observed(j) || j == idx) by {
                    if j / 8 == idx as int / 8 {
                        lemma_set_bit(old(self).has_observed@[j / 8], k, (j % 8) as u8);
                    }
                }
            }
        }
    }

    /// Whether the prescribed observer `idx` has submitted.
    pub fn is_observed(&self, idx: usize) -> (r: bool)
        ensures
            r == self.observed(idx as int),
    {
        if idx < 50 {
            let k: u8 = (idx % 8) as u8;
            (self.has_observed[idx / 8] >> k) & 1 == 1
        } else {
            false
        }
    }
}

/// Each prescribed observer has a bit of its own, the lowest of each byte first: it is
/// set when the observer is recorded, and no other bit changes.
pub proof fn each_observer_has_a_bit(epoch: &mut Epoch, idx: usize, j: usize, before: bool, after: bool)
    requires
        j < 50,
        call_ensures(Epoch::set_observed, (epoch, idx), ()),
        call_ensures(Epoch::is_observed, (&*old(epoch), j), before),
        call_ensures(Epoch::is_observed, (&*final(epoch), j), after),
    ensures
        before <==> (old(epoch).has_observed@[j as int / 8] >> ((j % 8) as u8)) & 1 == 1,
        after <==> before || j == idx,
        *final(epoch) == (Epoch { has_observed: final(epoch).has_observed, ..*old(epoch) }),
{
}

/// The sum of the composite weights is read back as it was written, and adding to it
/// adds.
pub proof fn composite_sum_is_kept(epoch: &mut Epoch, val: u128, read: u128)
    requires
        call_ensures(Epoch::set_total_composite_weight, (epoch, val), ()),
        call_ensures(Epoch::total_composite_weight, (&*final(epoch),), read),
    ensures
        read == val,
        *final(epoch) == (Epoch {
            total_composite_weight_lo: final(epoch).total_composite_weight_lo,
            total_composite_weight_hi: final(epoch).total_composite_weight_hi,
            ..*old(epoch)
        }),
        read == final(epoch).total_composite_weight_hi * 0x1_0000_0000_0000_0000
            + final(epoch).total_composite_weight_lo,
{
}

/// Adding a weight adds it to the sum.
pub proof fn adding_a_weight_adds_to_the_sum(epoch: &mut Epoch, val: u64, before: u128, after: u128)
    requires
        call_ensures(Epoch::total_composite_weight, (&*old(epoch),), before),
        call_ensures(Epoch::add_composite_weight, (epoch, val), ()),
        call_ensures(Epoch::total_composite_weight, (&*final(epoch),), after),
    ensures
        before + val <= u128::MAX ==> after == before + val,
        before + val > u128::MAX ==> after == u128::MAX,
        *final(epoch) == (Epoch {
            total_composite_weight_lo: final(epoch).total_composite_weight_lo,
            total_composite_weight_hi: final(epoch).total_composite_weight_hi,
            ..*old(epoch)
        }),
{
}

} // verus!
