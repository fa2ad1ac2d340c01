//! Layout of the shared region and the capacity computation.
//!
//! A region holds the queue header first, then `capacity` fixed-size item
//! slots starting at the header size rounded up to the item alignment. The
//! capacity is the largest power of two whose slots fit in the remaining
//! bytes; a region too small for one slot is rejected.

use vstd::prelude::*;
use vstd::arithmetic::power::pow;
use vstd::arithmetic::power2::{
    pow2, is_pow2, is_pow2_equiv, lemma_pow2, lemma_pow2_strictly_increases,
};

use crate::error::Error;

verus! {

/// Size in bytes of the queue header: one cache line (64 bytes) for each of
/// the two cursors, and one more for the capacity word and its padding.
pub const HEADER_SIZE: usize = 192;

/// `x` rounded up to the next multiple of `a`.
pub open spec fn spec_align_up(x: nat, a: nat) -> nat
    recommends
        a >= 1,
{
    if x % a == 0 {
        x
    } else {
        (x + (a - x % a)) as nat
    }
}

/// Byte offset of the first item slot: the header size aligned to the item.
pub open spec fn spec_buffer_offset(item_align: nat) -> nat
    recommends
        item_align >= 1,
{
    spec_align_up(HEADER_SIZE as nat, item_align)
}

/// The largest power of two that is at most `n`.
pub open spec fn floor_pow2(n: nat) -> nat
    recommends
        n >= 1,
    decreases n,
{
    if n <= 1 {
        1
    } else {
        2 * floor_pow2(n / 2)
    }
}

/// Whether a region of `file_size` bytes can hold the header and at least
/// one slot of `item_size` bytes aligned to `item_align`.
pub open spec fn layout_feasible(file_size: nat, item_size: nat, item_align: nat) -> bool
    recommends
        item_size >= 1,
        item_align >= 1,
{
    file_size >= spec_buffer_offset(item_align) + item_size
}

/// The item capacity of a feasible region: the largest power of two number
/// of slots that fit after the aligned header.
pub open spec fn spec_capacity(file_size: nat, item_size: nat, item_align: nat) -> nat
    recommends
        item_size >= 1,
        item_align >= 1,
        layout_feasible(file_size, item_size, item_align),
{
    floor_pow2((((file_size - spec_buffer_offset(item_align)) as nat) / item_size) as nat)
}

/// Basic facts about flooring division: the quotient times the divisor
/// stays below the dividend, and the quotient is positive exactly when the
/// dividend reaches the divisor.
pub(crate) proof fn lemma_div_bounds(x: nat, d: nat)
    requires
        d >= 1,
    ensures
        (x / d) * d <= x,
        x < ((x / d) + 1) * d,
        (x / d >= 1) <==> (x >= d),
{
    vstd::arithmetic::div_mod::lemma_fundamental_div_mod(x as int, d as int);
    vstd::arithmetic::div_mod::lemma_mod_division_less_than_divisor(x as int, d as int);
    let q = x as int / d as int;
    let r = x as int % d as int;
    assert(x == d * q + r);
    assert(q * d == d * q) by (nonlinear_arith);
    assert((q + 1) * d == q * d + d) by (nonlinear_arith);
    if x >= d && q < 1 {
        assert(d * q <= 0) by (nonlinear_arith)
            requires
                q <= 0,
                d >= 1,
        ;
        assert(false);
    }
    if q >= 1 && x < d {
        assert(d * q >= d) by (nonlinear_arith)
            requires
                q >= 1,
                d >= 1,
        ;
        assert(false);
    }
}

/// If `n * d` fits below `x`, then `n` is at most `x / d`.
pub(crate) proof fn lemma_le_div(x: nat, d: nat, n: nat)
    requires
        d >= 1,
        n * d <= x,
    ensures
        n <= x / d,
{
    lemma_div_bounds(x, d);
    let q = x / d;
    if n > q {
        assert((q + 1) * d <= n * d) by (nonlinear_arith)
            requires
                q + 1 <= n,
                d >= 1,
        ;
        assert(false);
    }
}

/// If `a` and `b` are powers of two and `a < b`, then `b` is at least `2a`.
pub proof fn lemma_pow2_ordering(a: nat, b: nat)
    requires
        is_pow2(a as int),
        is_pow2(b as int),
        a < b,
    ensures
        2 * a <= b,
{
    is_pow2_equiv(a as int);
    is_pow2_equiv(b as int);
    let i = choose|i: nat| pow(2, i) == a as int;
    let j = choose|j: nat| pow(2, j) == b as int;
    lemma_pow2(i);
    lemma_pow2(j);
    if j <= i {
        if j < i {
            lemma_pow2_strictly_increases(j, i);
        }
        assert(false);
    }
    lemma_pow2_strictly_increases(i, i + 1);
    assert(pow2(i + 1) == 2 * pow2(i)) by {
        vstd::arithmetic::power2::lemma_pow2_unfold(i + 1);
    }
    if i + 1 < j {
        lemma_pow2_strictly_increases(i + 1, j);
    }
}

/// `floor_pow2(n)` is a power of two, is at most `n`, and doubling it
/// overshoots `n`.
pub proof fn lemma_floor_pow2(n: nat)
    requires
        n >= 1,
    ensures
        is_pow2(floor_pow2(n) as int),
        floor_pow2(n) <= n,
        n < 2 * floor_pow2(n),
    decreases n,
{
    reveal(is_pow2);
    if n <= 1 {
    } else {
        lemma_floor_pow2(n / 2);
        let f = floor_pow2(n / 2);
        assert(is_pow2((2 * f) as int));
    }
}

/// No power of two between `floor_pow2(n)` and `n`: the floor is largest.
pub proof fn lemma_floor_pow2_maximal(n: nat, m: nat)
    requires
        n >= 1,
        is_pow2(m as int),
        m <= n,
    ensures
        m <= floor_pow2(n),
{
    lemma_floor_pow2(n);
    if m > floor_pow2(n) {
        lemma_pow2_ordering(floor_pow2(n), m);
    }
}

/// A power of two that fits in a word is at most half the word range.
proof fn lemma_pow2_fits_half(a: usize)
    requires
        is_pow2(a as int),
    ensures
        2 * (a as nat) <= usize::MAX as nat + 1,
{
    is_pow2_equiv(a as int);
    let i = choose|i: nat| pow(2, i) == a as int;
    lemma_pow2(i);
    vstd::layout::unsigned_int_max_values();
    let bits = usize::BITS as nat;
    assert(usize::MAX as nat + 1 == pow2(bits));
    if i >= bits {
        if i > bits {
            lemma_pow2_strictly_increases(bits, i);
        }
        assert(false);
    }
    assert(pow2(i + 1) == 2 * pow2(i)) by {
        vstd::arithmetic::power2::lemma_pow2_unfold(i + 1);
    }
    if i + 1 < bits {
        lemma_pow2_strictly_increases(i + 1, bits);
    }
}

/// The byte offset of the first item slot in a region: the header size
/// rounded up to the item alignment. The join path recomputes this from
/// the item type alone, so it matches what the capacity computation used
/// at creation time.
pub fn buffer_offset(item_align: usize) -> (r: usize)
    requires
        is_pow2(item_align as int),
    ensures
        r == spec_buffer_offset(item_align as nat),
{
    proof {
        reveal(is_pow2);
        lemma_pow2_fits_half(item_align);
    }
    let rem: usize = HEADER_SIZE % item_align;
    if rem == 0 {
        HEADER_SIZE
    } else {
        HEADER_SIZE + (item_align - rem)
    }
}

/// Whether `n` is a power of two.
pub fn is_power_of_two(n: usize) -> (r: bool)
    ensures
        r == is_pow2(n as int),
{
    if n == 0 {
        proof {
            reveal(is_pow2);
        }
        return false;
    }
    let mut m: usize = n;
    while m > 1 && m % 2 == 0
        invariant
            m >= 1,
            is_pow2(n as int) == is_pow2(m as int),
        decreases m,
    {
        proof {
            reveal(is_pow2);
        }
        m = m / 2;
    }
    proof {
        reveal(is_pow2);
    }
    m == 1
}

/// The number of item slots a region of `file_size` bytes can hold.
///
/// The header is placed first and the slots start at the header size
/// rounded up to `item_align`. The result is the largest power of two
/// `count` with `count * item_size` at most the remaining bytes; a region
/// without room for one slot is rejected.
pub fn calculate_buffer_size_in_items(
    file_size: usize,
    item_size: usize,
    item_align: usize,
) -> (r: Result<usize, Error>)
    requires
        item_size >= 1,
        is_pow2(item_align as int),
    ensures
        r is Ok <==> layout_feasible(file_size as nat, item_size as nat, item_align as nat),
        r is Err ==> r->Err_0 == Error::InvalidBufferSize,
        r is Ok ==> r->Ok_0 == spec_capacity(
            file_size as nat,
            item_size as nat,
            item_align as nat,
        ),
        r is Ok ==> is_pow2(r->Ok_0 as int) && r->Ok_0 >= 1 && r->Ok_0 * item_size + spec_buffer_offset(
            item_align as nat,
        ) <= file_size,
{
    proof {
        reveal(is_pow2);
        assert(item_align >= 1);
    }
    let rem: usize = HEADER_SIZE % item_align;
    let pad: usize = if rem == 0 {
        0
    } else {
        item_align - rem
    };
    assert(HEADER_SIZE + pad == spec_buffer_offset(item_align as nat));

    if file_size < HEADER_SIZE || file_size - HEADER_SIZE < pad {
        return Err(Error::InvalidBufferSize);
    }
    let buffer_offset: usize = HEADER_SIZE + pad;

    let buffer_size_in_bytes: usize = file_size - buffer_offset;
    let count: usize = buffer_size_in_bytes / item_size;
    proof {
        lemma_div_bounds(buffer_size_in_bytes as nat, item_size as nat);
    }
    if count == 0 {
        return Err(Error::InvalidBufferSize);
    }

    let mut p: usize = 1;
    proof {
        reveal(is_pow2);
    }
    while p <= count / 2
        invariant
            1 <= p <= count,
            count >= 1,
            is_pow2(p as int),
        decreases count - p,
    {
        proof {
            reveal(is_pow2);
            lemma_div_bounds(count as nat, 2);
            assert(is_pow2((2 * p) as int));
        }
        p = p * 2;
    }
    proof {
        lemma_div_bounds(count as nat, 2);
        assert(2 * p > count);
        lemma_floor_pow2_maximal(count as nat, p as nat);
        lemma_floor_pow2(count as nat);
        if floor_pow2(count as nat) > p {
            lemma_pow2_ordering(p as nat, floor_pow2(count as nat));
        }
        assert(p == floor_pow2(count as nat));
        assert(p * item_size <= count * item_size) by (nonlinear_arith)
            requires
                p <= count,
                item_size >= 1,
        ;
        lemma_div_bounds(buffer_size_in_bytes as nat, item_size as nat);
    }
    Ok(p)
}

/// The computed capacity is the largest power of two `n` whose `n *
/// item_size` bytes fit after the aligned header; every power of two that
/// fits is no larger than it.
pub proof fn lemma_capacity_largest(file_size: nat, item_size: nat, item_align: nat, n: nat)
    requires
        item_size >= 1,
        item_align >= 1,
        layout_feasible(file_size, item_size, item_align),
        is_pow2(n as int),
        n * item_size <= file_size - spec_buffer_offset(item_align),
    ensures
        n <= spec_capacity(file_size, item_size, item_align),
        spec_capacity(file_size, item_size, item_align) * item_size <= file_size
            - spec_buffer_offset(item_align),
{
    let usable = (file_size - spec_buffer_offset(item_align)) as nat;
    let count = usable / item_size;
    assert(usable >= item_size);
    lemma_div_bounds(usable, item_size);
    lemma_le_div(usable, item_size, n);
    lemma_floor_pow2_maximal(count, n);
    lemma_floor_pow2(count);
    assert(floor_pow2(count) * item_size <= count * item_size) by (nonlinear_arith)
        requires
            floor_pow2(count) <= count,
            item_size >= 1,
    ;
}

} // verus!

