//! Reading the name registry of the name service from its raw account data.

use vstd::prelude::*;

verus! {

/// The layout of an entry of the name registry.
#[derive(Clone, Copy, Debug)]
pub struct NameEntryReader {
    pub name_hash: [u8; 32],
    pub registry_index: u32,
    pub _padding: [u8; 4],
}

/// The number in four bytes, lowest byte first.
pub open spec fn le_u32(data: Seq<u8>, at: int) -> int {
    data[at] + 0x100 * data[at + 1] + 0x1_0000 * data[at + 2] + 0x100_0000 * data[at + 3]
}

/// The number of names, and where the first entry starts; `None` if the data
/// ends before that.
pub fn read_name_registry_header(data: &[u8]) -> (r: Option<(u32, usize)>)
    ensures
        match r {
            Some((count, offset)) => data@.len() >= 48 && count == le_u32(data@, 40) && offset == 48,
            None => data@.len() < 48,
        },
{
    if data.len() < 48 {
        return None;
    }
    let count: u32 = data[40] as u32 + 0x100 * (data[41] as u32) + 0x1_0000 * (data[42] as u32)
        + 0x100_0000 * (data[43] as u32);
    Some((count, 48))
}

/// The entry `index` of a name registry whose entries start at `names_offset`;
/// `None` if it does not lie within the data or is unused, that is, all zero.
pub open spec fn name_entry(data: Seq<u8>, names_offset: int, index: int) -> Option<Seq<u8>> {
    let at = names_offset + index * 40;
    if at + 32 > data.len() {
        None
    } else if data.subrange(at, at + 32) == Seq::new(32, |i: int| 0u8) {
        None
    } else {
        Some(data.subrange(at, at + 32))
    }
}

/// The hash of the name in entry `index`; `None` if the entry does not lie within
/// the data or is unused, that is, all zero.
pub fn read_name_entry(data: &[u8], names_offset: usize, index: usize) -> (r: Option<[u8; 32]>)
    requires
        names_offset + index * 40 + 32 <= usize::MAX,
    ensures
        match r {
            Some(hash) => name_entry(data@, names_offset as int, index as int) == Some(hash@),
            None => name_entry(data@, names_offset as int, index as int) is None,
        },
{
    let offset: usize = names_offset + index * 40;
    if offset + 32 > data.len() {
        return None;
    }
    let mut hash: [u8; 32] = [0u8; 32];
    let mut all_zero: bool = true;
    let mut i: usize = 0;
    while i < 32
        invariant
            i <= 32,
            offset + 32 <= data@.len(),
            offset + 32 <= usize::MAX,
            forall|j: int| 0 <= j < i ==> hash@[j] == data@[offset + j],
            all_zero <==> (forall|j: int| 0 <= j < i ==> hash@[j] == 0),
        decreases 32 - i,
    {
        let byte: u8 = data[offset + i];
        let ghost before = hash@;
        hash[i] = byte;
        assert(forall|j: int| 0 <= j < i ==> hash@[j] == before[j]);
        assert(hash@[i as int] == byte);
        if byte != 0 {
            all_zero = false;
        }
        proof {
            if !all_zero && byte == 0 {
                let k = choose|k: int| 0 <= k < i && before[k] != 0;
                assert(hash@[k] != 0);
            }
        }
        i = i + 1;
    }
    let ghost entry = data@.subrange(offset as int, offset + 32);
    assert(hash@ =~= entry);
    if all_zero {
        assert(entry =~= Seq::new(32, |i: int| 0u8));
        None
    } else {
        proof {
            if entry == Seq::new(32, |i: int| 0u8) {
                assert forall|j: int| 0 <= j < 32 implies hash@[j] == 0 by {
                    assert(entry[j] == 0);
                }
            }
        }
        Some(hash)
    }
}

/// The header tells the number of names in four bytes after the first forty, lowest
/// byte first, and the entries start behind forty-eight.
pub proof fn header_tells_the_number_of_names(data: &[u8], r: Option<(u32, usize)>)
    requires
        call_ensures(read_name_registry_header, (data,), r),
    ensures
        r is Some <==> data@.len() >= 48,
        r matches Some((count, offset)) ==> offset == 48 && count == data@[40] + 256 * data@[41] + 65_536 * data@[42]
            + 16_777_216 * data@[43],
{
}

/// An entry of forty bytes starts with the hash of its name; an entry of zeros is none.
pub proof fn entry_holds_the_hash_of_its_name(data: &[u8], names_offset: usize, index: usize, r: Option<[u8; 32]>)
    requires
        names_offset + index * 40 + 32 <= data@.len(),
        data@.len() <= usize::MAX,
        call_ensures(read_name_entry, (data, names_offset, index), r),
    ensures
        r is Some <==> exists|j: int| 0 <= j < 32 && #[trigger] data@[names_offset + index * 40 + j] != 0,
        r matches Some(hash) ==> forall|j: int|
            0 <= j < 32 ==> #[trigger] hash@[j] == data@[names_offset + index * 40 + j],
{
    let at = names_offset + index * 40;
    let entry = data@.subrange(at, at + 32);
    let zeros = Seq::new(32, |i: int| 0u8);
    if exists|j: int| 0 <= j < 32 && #[trigger] data@[at + j] != 0 {
        let j = choose|j: int| 0 <= j < 32 && #[trigger] data@[at + j] != 0;
        assert(entry[j] != zeros[j]);
    } else {
        assert forall|j: int| 0 <= j < 32 implies entry[j] == 0 by {
            assert(data@[at + j] == 0);
        }
        assert(entry =~= zeros);
    }
    if r is Some {
        assert forall|j: int| 0 <= j < 32 implies #[trigger] r->Some_0@[j] == data@[at + j] by {
            assert(entry[j] == data@[at + j]);
        }
    }
}

} // verus!
