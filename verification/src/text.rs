//! Checks on the texts that operators choose.

use vstd::prelude::*;
use vstd::utf8::encode_utf8;

verus! {

/// How many bytes a text takes.
pub open spec fn byte_len(text: Seq<char>) -> nat {
    encode_utf8(text).len()
}

/// How many bytes a text takes.
pub fn text_len(s: &String) -> (r: usize)
    ensures
        r == byte_len(s@),
{
    s.as_str().as_bytes().len()
}

/// A letter or digit, a dash or an underscore.
pub open spec fn is_id_byte(b: u8) -> bool {
    ||| 48 <= b <= 57
    ||| 65 <= b <= 90
    ||| 97 <= b <= 122
    ||| b == 45
    ||| b == 95
}

/// A text that is empty, or 43 letters, digits, dashes and underscores.
pub open spec fn arweave_id_valid(text: Seq<char>) -> bool {
    ||| encode_utf8(text).len() == 0
    ||| {
        &&& encode_utf8(text).len() == 43
        &&& forall|i: int| 0 <= i < 43 ==> #[trigger] is_id_byte(encode_utf8(text)[i])
    }
}

/// Whether a text is an Arweave id: 43 letters, digits, dashes and underscores.
/// An empty text is accepted as unset.
pub fn is_valid_arweave_id(s: &str) -> (r: bool)
    ensures
        r == arweave_id_valid(s@),
{
    let bytes = s.as_bytes();
    if bytes.len() == 0 {
        return true;
    }
    if bytes.len() != 43 {
        return false;
    }
    let mut i: usize = 0;
    while i < 43
        invariant
            i <= 43,
            bytes@ == encode_utf8(s@),
            bytes@.len() == 43,
            forall|j: int| 0 <= j < i ==> #[trigger] is_id_byte(encode_utf8(s@)[j]),
        decreases 43 - i,
    {
        let b: u8 = bytes[i];
        if !((b >= 48 && b <= 57) || (b >= 65 && b <= 90) || (b >= 97 && b <= 122) || b == 45 || b == 95) {
            assert(!is_id_byte(encode_utf8(s@)[i as int]));
            return false;
        }
        i = i + 1;
    }
    true
}

/// An Arweave id is nothing, or 43 bytes, each a letter or digit, a dash or an underscore;
/// the length of a text is that of its bytes.
pub proof fn arweave_id_is_forty_three_url_safe_bytes(text: &str, s: String, r: bool, len: usize)
    requires
        call_ensures(is_valid_arweave_id, (text,), r),
        call_ensures(text_len, (&s,), len),
    ensures
        ({
            let bytes = encode_utf8(text@);
            &&& r <==> bytes.len() == 0 || bytes.len() == 43 && forall|i: int|
                0 <= i < 43 ==> {
                    let b = #[trigger] bytes[i];
                    48 <= b <= 57 || 65 <= b <= 90 || 97 <= b <= 122 || b == 45 || b == 95
                }
        }),
        len == encode_utf8(s@).len(),
{
    let bytes = encode_utf8(text@);
    if bytes.len() == 43 {
        if r {
            assert forall|i: int| 0 <= i < 43 implies {
                let b = #[trigger] bytes[i];
                48 <= b <= 57 || 65 <= b <= 90 || 97 <= b <= 122 || b == 45 || b == 95
            } by {
                assert(is_id_byte(bytes[i]));
            }
        } else {
            let i = choose|i: int| 0 <= i < 43 && !#[trigger] is_id_byte(bytes[i]);
            assert(!is_id_byte(bytes[i]));
        }
    }
}

} // verus!
