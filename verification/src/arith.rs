//! Arithmetic that saturates or truncates, stated over the integers.

use vstd::prelude::*;

verus! {

/// `x` brought into the range of `i64`.
pub open spec fn clamp_i64(x: int) -> int {
    if x > i64::MAX {
        i64::MAX as int
    } else if x < i64::MIN {
        i64::MIN as int
    } else {
        x
    }
}

/// `x` capped at the largest `u64`.
pub open spec fn cap_u64(x: int) -> int {
    if x > u64::MAX {
        u64::MAX as int
    } else {
        x
    }
}

/// The difference of two amounts, or zero where it would be negative.
pub open spec fn minus_or_zero(a: int, b: int) -> int {
    if a > b {
        a - b
    } else {
        0
    }
}

/// The smaller of two numbers.
pub open spec fn lesser(a: int, b: int) -> int {
    if a <= b {
        a
    } else {
        b
    }
}

/// The low 64 bits of `x`.
pub open spec fn low64(x: int) -> int {
    x % 0x1_0000_0000_0000_0000
}

pub fn saturating_add_i64(a: i64, b: i64) -> (r: i64)
    ensures
        r == clamp_i64(a + b),
{
    match a.checked_add(b) {
        Some(v) => v,
        None => if b > 0 {
            i64::MAX
        } else {
            i64::MIN
        },
    }
}

pub fn saturating_sub_i64(a: i64, b: i64) -> (r: i64)
    ensures
        r == clamp_i64(a - b),
{
    match a.checked_sub(b) {
        Some(v) => v,
        None => if b < 0 {
            i64::MAX
        } else {
            i64::MIN
        },
    }
}

pub fn saturating_mul_i64(a: i64, b: i64) -> (r: i64)
    ensures
        r == clamp_i64(a * b),
{
    let wide: i128 = wide_product(a, b);
    if wide > i64::MAX as i128 {
        i64::MAX
    } else if wide < i64::MIN as i128 {
        i64::MIN
    } else {
        wide as i64
    }
}

fn wide_product(a: i64, b: i64) -> (r: i128)
    ensures
        r == a * b,
{
    proof {
        let x: int = a as int;
        let y: int = b as int;
        assert(-0x8000_0000_0000_0000int * 0x8000_0000_0000_0000int <= x * y
            <= 0x8000_0000_0000_0000int * 0x8000_0000_0000_0000int) by (nonlinear_arith)
            requires
                -0x8000_0000_0000_0000int <= x <= 0x8000_0000_0000_0000int,
                -0x8000_0000_0000_0000int <= y <= 0x8000_0000_0000_0000int,
        ;
    }
    (a as i128) * (b as i128)
}

/// `x` multiplied by `y`, or the largest `u128` where the product is larger.
pub fn saturating_mul_u128(x: u128, y: u128) -> (r: u128)
    ensures
        r == if x * y > u128::MAX {
            u128::MAX as int
        } else {
            x * y
        },
{
    match x.checked_mul(y) {
        Some(v) => v,
        None => u128::MAX,
    }
}

/// The product of two 64-bit numbers always fits in 128 bits.
pub fn mul_wide(a: u64, b: u64) -> (r: u128)
    ensures
        r == a * b,
{
    proof {
        lemma_u64_product_fits(a as int, b as int);
    }
    (a as u128) * (b as u128)
}

pub proof fn lemma_u64_product_fits(a: int, b: int)
    requires
        0 <= a <= u64::MAX,
        0 <= b <= u64::MAX,
    ensures
        0 <= a * b <= u64::MAX * u64::MAX,
        a * b <= u128::MAX,
{
    assert(0 <= a * b <= u64::MAX * u64::MAX) by (nonlinear_arith)
        requires
            0 <= a <= u64::MAX,
            0 <= b <= u64::MAX,
    ;
}

/// The low 64 bits of a 128-bit number.
pub fn truncate_u128(x: u128) -> (r: u64)
    ensures
        r == low64(x as int),
{
    assert((x as u64) == x % 0x1_0000_0000_0000_0000u128) by (bit_vector);
    x as u64
}

/// A 128-bit number, or the largest `u64` where it is larger.
pub fn cap_to_u64(x: u128) -> (r: u64)
    ensures
        r == cap_u64(x as int),
{
    if x > u64::MAX as u128 {
        u64::MAX
    } else {
        x as u64
    }
}

/// `part * whole / of`, which lies within `whole` as long as `part` lies within
/// `of`.
pub proof fn lemma_share_bounded(part: int, whole: int, of: int)
    requires
        0 <= part <= of,
        0 <= whole,
        0 < of,
    ensures
        0 <= part * whole / of <= whole,
        0 <= whole * part / of <= whole,
{
    assert(part * whole == whole * part) by (nonlinear_arith);
    assert(0 <= part * whole <= of * whole) by (nonlinear_arith)
        requires
            0 <= part <= of,
            0 <= whole,
    ;
    assert(of * whole / of == whole) by (nonlinear_arith)
        requires
            0 < of,
    ;
    vstd::arithmetic::div_mod::lemma_div_is_ordered(part * whole, of * whole, of);
    vstd::arithmetic::div_mod::lemma_div_pos_is_pos(part * whole, of);
}

/// An unsigned number read as a signed one of the same width.
pub open spec fn signed64(x: u64) -> int {
    if x <= i64::MAX {
        x as int
    } else {
        x - 0x1_0000_0000_0000_0000
    }
}

/// An unsigned number read as a signed one of the same width.
pub fn to_signed(x: u64) -> (r: i64)
    ensures
        r == signed64(x),
{
    if x > i64::MAX as u64 {
        assert(x as i64 == x - 0x1_0000_0000_0000_0000) by (bit_vector)
            requires
                x > 0x7fff_ffff_ffff_ffffu64,
        ;
    }
    x as i64
}

/// Whether a number lies within the range of `i64`.
pub open spec fn fits_i64(x: int) -> bool {
    i64::MIN <= x <= i64::MAX
}

/// The number in the bytes, lowest byte first.
pub open spec fn le_value(bytes: Seq<u8>) -> int
    decreases bytes.len(),
{
    if bytes.len() == 0 {
        0
    } else {
        bytes[0] + 256 * le_value(bytes.skip(1))
    }
}

pub open spec fn pow256(n: nat) -> int
    decreases n,
{
    if n == 0 {
        1
    } else {
        256 * pow256((n - 1) as nat)
    }
}

proof fn lemma_le_value_bounded(bytes: Seq<u8>)
    ensures
        0 <= le_value(bytes) < pow256(bytes.len()),
    decreases bytes.len(),
{
    if bytes.len() > 0 {
        lemma_le_value_bounded(bytes.skip(1));
    }
}

/// The number in the first `n` of some bytes, lowest byte first.
pub fn le_prefix(bytes: &[u8; 32], n: usize) -> (r: u128)
    requires
        n <= 16,
    ensures
        r == le_value(bytes@.take(n as int)),
        n <= 8 ==> r <= u64::MAX,
{
    let mut acc: u128 = 0;
    let mut i: usize = n;
    let ghost prefix = bytes@.take(n as int);
    assert(prefix.skip(n as int) =~= Seq::<u8>::empty());
    proof {
        reveal_with_fuel(pow256, 17);
    }
    while i > 0
        invariant
            i <= n <= 16,
            prefix == bytes@.take(n as int),
            acc == le_value(prefix.skip(i as int)),
        decreases i,
    {
        let ghost rest = prefix.skip(i as int);
        i = i - 1;
        proof {
            lemma_le_value_bounded(rest);
            assert(pow256(rest.len()) <= 0x1_0000_0000_0000_0000_0000_0000_0000_00int) by {
                reveal_with_fuel(pow256, 17);
                lemma_pow256_grows(rest.len(), 15);
            }
            let whole = prefix.skip(i as int);
            assert(whole.skip(1) =~= rest);
            assert(whole[0] == bytes@[i as int]);
        }
        acc = (bytes[i] as u128) + 256 * acc;
    }
    proof {
        assert(prefix.skip(0) =~= prefix);
        lemma_le_value_bounded(prefix);
        if n <= 8 {
            lemma_pow256_grows(n as nat, 8);
            reveal_with_fuel(pow256, 17);
        }
    }
    acc
}

proof fn lemma_pow256_grows(a: nat, b: nat)
    requires
        a <= b,
    ensures
        0 < pow256(a) <= pow256(b),
    decreases b,
{
    if a < b {
        lemma_pow256_grows(a, (b - 1) as nat);
    } else if a > 0 {
        lemma_pow256_grows((a - 1) as nat, (a - 1) as nat);
    }
}

/// `part` is `of * number / out_of`, rounded down.
pub open spec fn is_part(part: int, of: int, number: int, out_of: int) -> bool {
    part * out_of <= of * number < part * out_of + out_of
}

pub proof fn lemma_quotient_is_part(of: int, number: int, out_of: int)
    requires
        out_of > 0,
    ensures
        is_part(of * number / out_of, of, number, out_of),
{
    let x: int = of * number;
    let q: int = x / out_of;
    vstd::arithmetic::div_mod::lemma_fundamental_div_mod(x, out_of);
    vstd::arithmetic::div_mod::lemma_mod_bound(x, out_of);
    assert(q * out_of == out_of * q) by (nonlinear_arith);
}

/// There is one part only.
pub proof fn lemma_part_is_unique(a: int, b: int, of: int, number: int, out_of: int)
    requires
        out_of > 0,
        is_part(a, of, number, out_of),
        is_part(b, of, number, out_of),
    ensures
        a == b,
{
    assert(a == b) by (nonlinear_arith)
        requires
            out_of > 0,
            a * out_of < b * out_of + out_of,
            b * out_of < a * out_of + out_of,
    ;
}

/// `after` is `before` less `by`, or nothing where that would be negative.
pub open spec fn falls_by(before: u64, after: u64, by: int) -> bool {
    after == if before >= by {
        before - by
    } else {
        0
    }
}

/// The sum of the first `n` terms, numbered from zero.
pub open spec fn sum_of(n: int, term: spec_fn(int) -> int) -> int
    decreases n,
{
    if n <= 0 {
        0
    } else {
        sum_of(n - 1, term) + term(n - 1)
    }
}

/// Sums of equal terms are equal.
pub proof fn lemma_sum_of_equal_terms(n: int, a: spec_fn(int) -> int, b: spec_fn(int) -> int)
    requires
        forall|k: int| 0 <= k < n ==> #[trigger] a(k) == b(k),
    ensures
        sum_of(n, a) == sum_of(n, b),
    decreases n,
{
    if n > 0 {
        lemma_sum_of_equal_terms(n - 1, a, b);
    }
}

/// Sums, differences and products that fit are exact; those that do not end at the nearer
/// end of the range.
pub proof fn saturating_operations_are_exact_in_range(
    a: i64,
    b: i64,
    sum: i64,
    difference: i64,
    product: i64,
    x: u128,
    y: u128,
    wide: u128,
)
    requires
        call_ensures(saturating_add_i64, (a, b), sum),
        call_ensures(saturating_sub_i64, (a, b), difference),
        call_ensures(saturating_mul_i64, (a, b), product),
        call_ensures(saturating_mul_u128, (x, y), wide),
    ensures
        i64::MIN <= a + b <= i64::MAX ==> sum == a + b,
        a + b > i64::MAX ==> sum == i64::MAX,
        a + b < i64::MIN ==> sum == i64::MIN,
        i64::MIN <= a - b <= i64::MAX ==> difference == a - b,
        a - b > i64::MAX ==> difference == i64::MAX,
        a - b < i64::MIN ==> difference == i64::MIN,
        i64::MIN <= a * b <= i64::MAX ==> product == a * b,
        a * b > i64::MAX ==> product == i64::MAX,
        a * b < i64::MIN ==> product == i64::MIN,
        x * y <= u128::MAX ==> wide == x * y,
        x * y > u128::MAX ==> wide == u128::MAX,
{
}

/// Numbers that fit into 64 bits stay as they are; of a larger one, the low bits remain, or
/// the largest number, as the case may be. Products of 64-bit numbers are exact.
pub proof fn narrowing_keeps_what_fits(
    x: u128,
    low: u64,
    capped: u64,
    a: u64,
    b: u64,
    product: u128,
    signed: i64,
)
    requires
        call_ensures(truncate_u128, (x,), low),
        call_ensures(cap_to_u64, (x,), capped),
        call_ensures(mul_wide, (a, b), product),
        call_ensures(to_signed, (a,), signed),
    ensures
        x <= u64::MAX ==> low == x && capped == x,
        x > u64::MAX ==> capped == u64::MAX,
        (x - low) % 0x1_0000_0000_0000_0000 == 0,
        product == a * b,
        a <= i64::MAX ==> signed == a,
        a > i64::MAX ==> signed == a - 0x1_0000_0000_0000_0000,
{
}

/// The first byte counts once, and what the bytes behind it come to counts 256 times.
pub proof fn first_byte_counts_least(
    bytes: [u8; 32],
    rest: [u8; 32],
    n: usize,
    r: u128,
    tail: u128,
    none: u128,
)
    requires
        0 < n <= 16,
        forall|i: int| 0 <= i < 31 ==> #[trigger] rest@[i] == bytes@[i + 1],
        call_ensures(le_prefix, (&bytes, n), r),
        call_ensures(le_prefix, (&rest, (n - 1) as usize), tail),
        call_ensures(le_prefix, (&bytes, 0), none),
    ensures
        r == bytes@[0] + 256 * tail,
        none == 0,
{
    assert(bytes@.take(n as int).skip(1) =~= rest@.take(n - 1));
}

} // verus!
