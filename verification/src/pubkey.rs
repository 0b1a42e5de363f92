//! Account addresses, and the two primitives of the runtime that compute them.

use vstd::prelude::*;

verus! {

/// A 32-byte account address.
#[derive(Clone, Copy, Debug)]
pub struct Pubkey {
    pub bytes: [u8; 32],
}

impl View for Pubkey {
    type V = Seq<u8>;

    open spec fn view(&self) -> Seq<u8> {
        self.bytes@
    }
}

/// Two arrays of bytes are equal exactly if they hold the same bytes.
pub fn same_bytes(a: &[u8; 32], b: &[u8; 32]) -> (r: bool)
    ensures
        r == (*a == *b),
        r == (a@ == b@),
{
    let mut i: usize = 0;
    while i < 32
        invariant
            i <= 32,
            forall|j: int| 0 <= j < i ==> a@[j] == b@[j],
        decreases 32 - i,
    {
        if a[i] != b[i] {
            return false;
        }
        i = i + 1;
    }
    assert(a@ =~= b@);
    assert(*a =~= *b);
    true
}

impl PartialEq for Pubkey {
    fn eq(&self, other: &Self) -> (r: bool) {
        same_bytes(&self.bytes, &other.bytes)
    }
}

impl vstd::std_specs::cmp::PartialEqSpecImpl for Pubkey {
    open spec fn obeys_eq_spec() -> bool {
        true
    }

    open spec fn eq_spec(&self, other: &Self) -> bool {
        *self == *other
    }
}

impl Eq for Pubkey {
}

impl Pubkey {
    pub fn new_from_array(bytes: [u8; 32]) -> (r: Pubkey)
        ensures
            r.bytes == bytes,
            r@ == bytes@,
    {
        Pubkey { bytes }
    }

    pub fn to_bytes(self) -> (r: [u8; 32])
        ensures
            r == self.bytes,
            r@ == self@,
    {
        self.bytes
    }

    /// The all-zero address.
    pub open spec fn zero() -> Pubkey {
        Pubkey { bytes: vstd::array::spec_array_fill_for_copy_type::<u8, 32>(0u8) }
    }
}

impl Default for Pubkey {
    /// The all-zero address.
    fn default() -> (r: Pubkey)
        ensures
            r == Pubkey::zero(),
            r@ == Seq::new(32, |i: int| 0u8),
    {
        let r = Pubkey { bytes: [0u8; 32] };
        assert(r@ =~= Seq::new(32, |i: int| 0u8));
        r
    }
}

/// Two addresses are equal exactly if they hold the same bytes.
pub proof fn pubkey_determined_by_bytes(a: Pubkey, b: Pubkey)
    ensures
        (a == b) <==> (a@ == b@),
{
    if a@ == b@ {
        assert(a.bytes =~= b.bytes);
    }
}

/// The SHA-256 digest of a byte string.
pub uninterp spec fn sha256(data: Seq<u8>) -> Seq<u8>;

/// The program-derived address of a list of seeds under a program, with the
/// bump seed that moves it off the curve; `None` where no bump does.
pub uninterp spec fn program_address(seeds: Seq<Seq<u8>>, program_id: Seq<u8>) -> Option<(Seq<u8>, u8)>;

/// `anchor_lang::solana_program::hash::hash`: the SHA-256 digest of `data`. It
/// depends on the bytes of `data` alone.
#[verifier::external_body]
pub(crate) fn sha256_hash(data: &Vec<u8>) -> (r: [u8; 32])
    ensures
        r@ == sha256(data@),
{
    anchor_lang::solana_program::hash::hash(data.as_slice()).to_bytes()
}

/// The address that holds the given bytes.
pub open spec fn address_of(bytes: Seq<u8>) -> Pubkey {
    choose|key: Pubkey| key@ == bytes
}

pub proof fn lemma_address_of(key: Pubkey)
    ensures
        address_of(key@) == key,
{
    pubkey_determined_by_bytes(address_of(key@), key);
}

/// The program-derived address of a list of seeds, with its bump seed.
pub open spec fn derived_address(seeds: Seq<Seq<u8>>, program_id: Pubkey) -> Option<(Pubkey, u8)> {
    match program_address(seeds, program_id@) {
        Some((bytes, bump)) => Some((address_of(bytes), bump)),
        None => None,
    }
}

pub open spec fn seeds_view(seeds: Seq<Vec<u8>>) -> Seq<Seq<u8>> {
    Seq::new(seeds.len(), |i: int| seeds[i]@)
}

/// `Pubkey::try_find_program_address`: tries the bump seeds downward from 255
/// and returns the first address that is off the curve. The answer depends on
/// the seeds and the program id alone.
#[verifier::external_body]
pub(crate) fn find_program_address(seeds: &Vec<Vec<u8>>, program_id: &Pubkey) -> (r: Option<(Pubkey, u8)>)
    ensures
        match r {
            Some((address, bump)) => program_address(seeds_view(seeds@), program_id@) == Some((address@, bump)),
            None => program_address(seeds_view(seeds@), program_id@) is None,
        },
{
    let slices: Vec<&[u8]> = seeds.iter().map(|seed| seed.as_slice()).collect();
    let program = anchor_lang::prelude::Pubkey::new_from_array(program_id.bytes);
    let (address, bump) = anchor_lang::prelude::Pubkey::try_find_program_address(slices.as_slice(), &program)?;
    Some((Pubkey { bytes: address.to_bytes() }, bump))
}

/// An address is made of its bytes and gives them back; two are equal exactly if all their
/// bytes are.
pub proof fn address_is_made_of_its_bytes(bytes: [u8; 32], key: Pubkey, back: [u8; 32], other: [u8; 32], same: bool)
    requires
        call_ensures(Pubkey::new_from_array, (bytes,), key),
        call_ensures(Pubkey::to_bytes, (key,), back),
        call_ensures(same_bytes, (&bytes, &other), same),
    ensures
        back == bytes,
        key.bytes == bytes,
        same <==> forall|i: int| 0 <= i < 32 ==> #[trigger] bytes@[i] == other@[i],
{
    if forall|i: int| 0 <= i < 32 ==> #[trigger] bytes@[i] == other@[i] {
        assert(bytes@ =~= other@);
    }
}

} // verus!
