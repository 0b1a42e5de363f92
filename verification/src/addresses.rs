//! The addresses of the program's accounts.

use vstd::prelude::*;
use crate::arith::le_value;
use crate::pubkey::{derived_address, find_program_address, lemma_address_of, seeds_view, Pubkey};
use crate::state::constants::{
    ALLOWLIST_SEED, ARNS_NAME_REGISTRY_SEED, DELEGATION_SEED, GATEWAY_SEED, OBSERVER_LOOKUP_SEED, REGISTRY_SEED,
    WITHDRAWAL_SEED,
};

verus! {

/// The eight bytes of a number, lowest byte first.
pub open spec fn le_bytes_u64(x: u64) -> Seq<u8> {
    Seq::new(8, |i: int| byte_of(x, i))
}

/// Byte `i` of a number, counted from the lowest.
pub open spec fn byte_of(x: u64, i: int) -> u8 {
    (x >> ((8 * i) as u64)) as u8
}

/// The eight bytes of a number, lowest byte first.
pub fn u64_to_le_bytes(x: u64) -> (r: Vec<u8>)
    ensures
        r@ == le_bytes_u64(x),
{
    let mut r: Vec<u8> = Vec::new();
    let mut i: u64 = 0;
    while i < 8
        invariant
            i <= 8,
            r@ == le_bytes_u64(x).take(i as int),
        decreases 8 - i,
    {
        r.push((x >> (8 * i)) as u8);
        assert(r@ =~= le_bytes_u64(x).take(i + 1));
        i = i + 1;
    }
    assert(le_bytes_u64(x).take(8) =~= le_bytes_u64(x));
    r
}

/// A copy of the bytes of an array.
pub fn bytes_of<const N: usize>(a: &[u8; N]) -> (r: Vec<u8>)
    ensures
        r@ == a@,
{
    let mut r: Vec<u8> = Vec::new();
    let mut i: usize = 0;
    while i < N
        invariant
            i <= N,
            r@ == a@.take(i as int),
        decreases N - i,
    {
        r.push(a[i]);
        assert(r@ =~= a@.take(i + 1));
        i = i + 1;
    }
    assert(a@.take(N as int) =~= a@);
    r
}

/// The address derived from `seeds` under `program_id`.
fn derive(seeds: Vec<Vec<u8>>, program_id: &Pubkey) -> (r: Option<(Pubkey, u8)>)
    ensures
        r == derived_address(seeds_view(seeds@), *program_id),
{
    let r = find_program_address(&seeds, program_id);
    proof {
        match r {
            Some((key, bump)) => lemma_address_of(key),
            None => {},
        }
    }
    r
}

/// The address of an operator's gateway.
pub open spec fn gateway_pda(operator: Pubkey, program_id: Pubkey) -> Option<(Pubkey, u8)> {
    derived_address(seq![GATEWAY_SEED@, operator@], program_id)
}

pub fn gateway_address(operator: &Pubkey, program_id: &Pubkey) -> (r: Option<(Pubkey, u8)>)
    ensures
        r == gateway_pda(*operator, *program_id),
{
    let seeds: Vec<Vec<u8>> = vec![bytes_of(&GATEWAY_SEED), bytes_of(&operator.bytes)];
    assert(seeds_view(seeds@) =~= seq![GATEWAY_SEED@, operator@]);
    derive(seeds, program_id)
}

/// The address of what a delegator has staked with a gateway.
pub open spec fn delegation_pda(operator: Pubkey, delegator: Pubkey, program_id: Pubkey) -> Option<(Pubkey, u8)> {
    derived_address(seq![DELEGATION_SEED@, operator@, delegator@], program_id)
}

pub fn delegation_address(operator: &Pubkey, delegator: &Pubkey, program_id: &Pubkey) -> (r: Option<(Pubkey, u8)>)
    ensures
        r == delegation_pda(*operator, *delegator, *program_id),
{
    let seeds: Vec<Vec<u8>> = vec![
        bytes_of(&DELEGATION_SEED),
        bytes_of(&operator.bytes),
        bytes_of(&delegator.bytes),
    ];
    assert(seeds_view(seeds@) =~= seq![DELEGATION_SEED@, operator@, delegator@]);
    derive(seeds, program_id)
}

/// The address of the withdrawal `id` of an owner.
pub open spec fn withdrawal_pda(owner: Pubkey, id: u64, program_id: Pubkey) -> Option<(Pubkey, u8)> {
    derived_address(seq![WITHDRAWAL_SEED@, owner@, le_bytes_u64(id)], program_id)
}

pub fn withdrawal_address(owner: &Pubkey, id: u64, program_id: &Pubkey) -> (r: Option<(Pubkey, u8)>)
    ensures
        r == withdrawal_pda(*owner, id, *program_id),
{
    let seeds: Vec<Vec<u8>> = vec![bytes_of(&WITHDRAWAL_SEED), bytes_of(&owner.bytes), u64_to_le_bytes(id)];
    assert(seeds_view(seeds@) =~= seq![WITHDRAWAL_SEED@, owner@, le_bytes_u64(id)]);
    derive(seeds, program_id)
}

/// The address of a delegate's entry on a gateway's allowlist.
pub open spec fn allowlist_pda(operator: Pubkey, delegate: Pubkey, program_id: Pubkey) -> Option<(Pubkey, u8)> {
    derived_address(seq![ALLOWLIST_SEED@, operator@, delegate@], program_id)
}

pub fn allowlist_address(operator: &Pubkey, delegate: &Pubkey, program_id: &Pubkey) -> (r: Option<(Pubkey, u8)>)
    ensures
        r == allowlist_pda(*operator, *delegate, *program_id),
{
    let seeds: Vec<Vec<u8>> = vec![
        bytes_of(&ALLOWLIST_SEED),
        bytes_of(&operator.bytes),
        bytes_of(&delegate.bytes),
    ];
    assert(seeds_view(seeds@) =~= seq![ALLOWLIST_SEED@, operator@, delegate@]);
    derive(seeds, program_id)
}

/// The address of an observer's index entry.
pub open spec fn observer_lookup_pda(observer: Pubkey, program_id: Pubkey) -> Option<(Pubkey, u8)> {
    derived_address(seq![OBSERVER_LOOKUP_SEED@, observer@], program_id)
}

pub fn observer_lookup_address(observer: &Pubkey, program_id: &Pubkey) -> (r: Option<(Pubkey, u8)>)
    ensures
        r == observer_lookup_pda(*observer, *program_id),
{
    let seeds: Vec<Vec<u8>> = vec![bytes_of(&OBSERVER_LOOKUP_SEED), bytes_of(&observer.bytes)];
    assert(seeds_view(seeds@) =~= seq![OBSERVER_LOOKUP_SEED@, observer@]);
    derive(seeds, program_id)
}

/// The address of the gateway registry.
pub open spec fn registry_pda(program_id: Pubkey) -> Option<(Pubkey, u8)> {
    derived_address(seq![REGISTRY_SEED@], program_id)
}

pub fn registry_address(program_id: &Pubkey) -> (r: Option<(Pubkey, u8)>)
    ensures
        r == registry_pda(*program_id),
{
    let seeds: Vec<Vec<u8>> = vec![bytes_of(&REGISTRY_SEED)];
    assert(seeds_view(seeds@) =~= seq![REGISTRY_SEED@]);
    derive(seeds, program_id)
}

/// The address of the name registry of the name service.
pub open spec fn name_registry_pda(arns_program_id: Pubkey) -> Option<(Pubkey, u8)> {
    derived_address(seq![ARNS_NAME_REGISTRY_SEED@], arns_program_id)
}

pub fn name_registry_address(arns_program_id: &Pubkey) -> (r: Option<(Pubkey, u8)>)
    ensures
        r == name_registry_pda(*arns_program_id),
{
    let seeds: Vec<Vec<u8>> = vec![bytes_of(&ARNS_NAME_REGISTRY_SEED)];
    assert(seeds_view(seeds@) =~= seq![ARNS_NAME_REGISTRY_SEED@]);
    derive(seeds, arns_program_id)
}

/// Eight bytes that make up a number, lowest byte first, are the bytes of the number.
pub proof fn lemma_le_bytes_inverse(bytes: Seq<u8>, x: u64)
    requires
        bytes.len() == 8,
        le_value(bytes) == x,
    ensures
        bytes == le_bytes_u64(x),
{
    reveal_with_fuel(le_value, 9);
    let (b0, b1, b2, b3) = (bytes[0], bytes[1], bytes[2], bytes[3]);
    let (b4, b5, b6, b7) = (bytes[4], bytes[5], bytes[6], bytes[7]);
    let s1 = bytes.skip(1);
    let s2 = s1.skip(1);
    let s3 = s2.skip(1);
    let s4 = s3.skip(1);
    let s5 = s4.skip(1);
    let s6 = s5.skip(1);
    let s7 = s6.skip(1);
    assert(s7.skip(1).len() == 0);
    assert(x == b0 + 0x100 * b1 + 0x1_0000 * b2 + 0x100_0000 * b3 + 0x1_0000_0000 * b4 + 0x100_0000_0000 * b5
        + 0x1_0000_0000_0000 * b6 + 0x100_0000_0000_0000 * b7);
    assert((x >> 0u64) as u8 == b0 && (x >> 8u64) as u8 == b1 && (x >> 16u64) as u8 == b2 && (x >> 24u64) as u8 == b3
        && (x >> 32u64) as u8 == b4 && (x >> 40u64) as u8 == b5 && (x >> 48u64) as u8 == b6 && (x >> 56u64) as u8
        == b7) by (bit_vector)
        requires
            x == b0 + 0x100 * b1 + 0x1_0000 * b2 + 0x100_0000 * b3 + 0x1_0000_0000 * b4 + 0x100_0000_0000 * b5
                + 0x1_0000_0000_0000 * b6 + 0x100_0000_0000_0000 * b7,
    ;
    assert(bytes =~= le_bytes_u64(x));
}

/// The bytes of a number are eight, and make it up again, lowest byte first.
pub proof fn bytes_make_up_the_number(x: u64, r: Vec<u8>)
    requires
        call_ensures(u64_to_le_bytes, (x,), r),
    ensures
        r@.len() == 8,
        le_value(r@) == x,
{
    let b = r@;
    reveal_with_fuel(le_value, 9);
    let s1 = b.skip(1);
    let s2 = s1.skip(1);
    let s3 = s2.skip(1);
    let s4 = s3.skip(1);
    let s5 = s4.skip(1);
    let s6 = s5.skip(1);
    let s7 = s6.skip(1);
    assert(s7.skip(1).len() == 0);
    let (b0, b1, b2, b3) = ((x >> 0u64) as u8, (x >> 8u64) as u8, (x >> 16u64) as u8, (x >> 24u64) as u8);
    let (b4, b5, b6, b7) = ((x >> 32u64) as u8, (x >> 40u64) as u8, (x >> 48u64) as u8, (x >> 56u64) as u8);
    assert(b[0] == b0 && b[1] == b1 && b[2] == b2 && b[3] == b3 && b[4] == b4 && b[5] == b5 && b[6] == b6 && b[7]
        == b7);
    assert(x == b0 + 0x100 * b1 + 0x1_0000 * b2 + 0x100_0000 * b3 + 0x1_0000_0000 * b4 + 0x100_0000_0000 * b5
        + 0x1_0000_0000_0000 * b6 + 0x100_0000_0000_0000 * b7) by (bit_vector)
        requires
            b0 == (x >> 0u64) as u8,
            b1 == (x >> 8u64) as u8,
            b2 == (x >> 16u64) as u8,
            b3 == (x >> 24u64) as u8,
            b4 == (x >> 32u64) as u8,
            b5 == (x >> 40u64) as u8,
            b6 == (x >> 48u64) as u8,
            b7 == (x >> 56u64) as u8,
    ;
}

/// Each account lies at the address derived from the name of its kind and from what it
/// belongs to: a gateway's from its operator, a delegation's from the operator and the
/// delegator, an allowlist entry's from the operator and the delegate, an observer's entry
/// from the observer.
pub proof fn addresses_follow_from_kind_and_owner(
    operator: Pubkey,
    other: Pubkey,
    program_id: Pubkey,
    gateway: Option<(Pubkey, u8)>,
    delegation: Option<(Pubkey, u8)>,
    allowlist: Option<(Pubkey, u8)>,
    lookup: Option<(Pubkey, u8)>,
)
    requires
        call_ensures(gateway_address, (&operator, &program_id), gateway),
        call_ensures(delegation_address, (&operator, &other, &program_id), delegation),
        call_ensures(allowlist_address, (&operator, &other, &program_id), allowlist),
        call_ensures(observer_lookup_address, (&other, &program_id), lookup),
    ensures
        gateway == derived_address(seq![seq![103u8, 97, 116, 101, 119, 97, 121], operator@], program_id),
        delegation == derived_address(
            seq![seq![100u8, 101, 108, 101, 103, 97, 116, 105, 111, 110], operator@, other@],
            program_id,
        ),
        allowlist == derived_address(
            seq![seq![97u8, 108, 108, 111, 119, 108, 105, 115, 116], operator@, other@],
            program_id,
        ),
        lookup == derived_address(
            seq![seq![111u8, 98, 115, 101, 114, 118, 101, 114, 95, 108, 111, 111, 107, 117, 112], other@],
            program_id,
        ),
{
    assert(GATEWAY_SEED@ =~= seq![103u8, 97, 116, 101, 119, 97, 121]);
    assert(DELEGATION_SEED@ =~= seq![100u8, 101, 108, 101, 103, 97, 116, 105, 111, 110]);
    assert(ALLOWLIST_SEED@ =~= seq![97u8, 108, 108, 111, 119, 108, 105, 115, 116]);
    assert(OBSERVER_LOOKUP_SEED@ =~= seq![
        111u8, 98, 115, 101, 114, 118, 101, 114, 95, 108, 111, 111, 107, 117, 112,
    ]);
}

/// A withdrawal's address follows from its owner and from the eight bytes of its number,
/// lowest byte first; each registry has one address under its program.
pub proof fn withdrawal_and_registry_addresses(
    owner: Pubkey,
    id: u64,
    program_id: Pubkey,
    bytes: Seq<u8>,
    withdrawal: Option<(Pubkey, u8)>,
    registry: Option<(Pubkey, u8)>,
    names: Option<(Pubkey, u8)>,
)
    requires
        bytes.len() == 8,
        le_value(bytes) == id,
        call_ensures(withdrawal_address, (&owner, id, &program_id), withdrawal),
        call_ensures(registry_address, (&program_id,), registry),
        call_ensures(name_registry_address, (&program_id,), names),
    ensures
        withdrawal == derived_address(
            seq![seq![119u8, 105, 116, 104, 100, 114, 97, 119, 97, 108], owner@, bytes],
            program_id,
        ),
        registry == derived_address(
            seq![seq![103u8, 97, 116, 101, 119, 97, 121, 95, 114, 101, 103, 105, 115, 116, 114, 121]],
            program_id,
        ),
        names == derived_address(
            seq![seq![110u8, 97, 109, 101, 95, 114, 101, 103, 105, 115, 116, 114, 121]],
            program_id,
        ),
{
    lemma_le_bytes_inverse(bytes, id);
    assert(WITHDRAWAL_SEED@ =~= seq![119u8, 105, 116, 104, 100, 114, 97, 119, 97, 108]);
    assert(REGISTRY_SEED@ =~= seq![103u8, 97, 116, 101, 119, 97, 121, 95, 114, 101, 103, 105, 115, 116, 114, 121]);
    assert(ARNS_NAME_REGISTRY_SEED@ =~= seq![110u8, 97, 109, 101, 95, 114, 101, 103, 105, 115, 116, 114, 121]);
}

} // verus!
