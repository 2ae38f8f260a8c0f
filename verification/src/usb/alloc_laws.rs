//! What holds of every request made to the bump allocator.

use vstd::prelude::*;
use vstd::arithmetic::div_mod::lemma_fundamental_div_mod;
use vstd::arithmetic::div_mod::lemma_mod_multiples_basic;
use vstd::arithmetic::mul::lemma_mul_is_associative;
use vstd::arithmetic::mul::lemma_mul_is_commutative;
use vstd::arithmetic::mul::lemma_mul_is_distributive_add;
use vstd::arithmetic::power::lemma_pow_positive;
use vstd::arithmetic::power::pow;
use vstd::arithmetic::power2::is_pow2;
use vstd::arithmetic::power2::is_pow2_equiv;
use vstd::arithmetic::power2::is_pow2_exists;
use vstd::arithmetic::power2::lemma2_to64;
use vstd::arithmetic::power2::lemma_pow2_adds;
use vstd::arithmetic::power2::lemma_pow2_pos;
use vstd::arithmetic::power2::pow2;
use crate::usb::simple_alloc::cursor_in_pool;
use crate::usb::simple_alloc::divides_or_is_divided;
use crate::usb::simple_alloc::placement;
use crate::usb::simple_alloc::round_up;
use crate::usb::simple_alloc::served;
use crate::usb::simple_alloc::Pool;
use crate::usb::simple_alloc::Region;
use crate::usb::simple_alloc::BOUNDARY;

verus! {

/// Rounding up yields a multiple of the alignment, at or above the address
/// and less than one alignment above it.
pub proof fn lemma_round_up_is_next_multiple(addr: int, alignment: int)
    requires
        alignment > 0,
    ensures
        round_up(addr, alignment) % alignment == 0,
        addr <= round_up(addr, alignment) < addr + alignment,
{
    let over = addr % alignment;
    if over != 0 {
        lemma_fundamental_div_mod(addr, alignment);
        let quotient = addr / alignment;
        assert(addr + alignment - over == alignment * quotient + alignment);
        assert(alignment * quotient + alignment == (quotient + 1) * alignment) by {
            lemma_mul_is_distributive_add(alignment, quotient, 1);
            lemma_mul_is_commutative(alignment, quotient + 1);
        }
        lemma_mod_multiples_basic(quotient + 1, alignment);
    }
}

/// A range is never placed below the cursor.
pub proof fn lemma_placement_not_below_cursor(cursor: int, size: int, alignment: int, boundary: int)
    requires
        alignment > 0,
        boundary > 0,
    ensures
        cursor <= placement(cursor, size, alignment, boundary),
{
    lemma_round_up_is_next_multiple(cursor, alignment);
    lemma_round_up_is_next_multiple(round_up(cursor, alignment), boundary);
}

/// A range no longer than the boundary lies within one block between two
/// multiples of the boundary, whatever the alignment: its first and its
/// last byte have the same block number.
pub proof fn lemma_range_stays_in_one_block(cursor: int, size: int, alignment: int, boundary: int)
    requires
        0 <= cursor,
        alignment > 0,
        0 < size <= boundary,
    ensures
        placement(cursor, size, alignment, boundary) / boundary == (placement(
            cursor,
            size,
            alignment,
            boundary,
        ) + size - 1) / boundary,
{
    let aligned = round_up(cursor, alignment);
    let next = round_up(aligned, boundary);
    lemma_round_up_is_next_multiple(cursor, alignment);
    lemma_round_up_is_next_multiple(aligned, boundary);
    let start = placement(cursor, size, alignment, boundary);
    if start == next {
        // The range starts on a multiple of the boundary and is no longer
        // than the boundary.
        lemma_block_of(start, start, boundary);
        lemma_block_of(start + size - 1, start, boundary);
    } else {
        // The range ends at or before the next multiple, which lies above
        // its start.
        let floor = next - boundary;
        lemma_multiple_below(next, boundary);
        lemma_block_of(start, floor, boundary);
        lemma_block_of(start + size - 1, floor, boundary);
    }
}

/// One boundary below a multiple of the boundary lies another multiple.
proof fn lemma_multiple_below(multiple: int, boundary: int)
    requires
        boundary > 0,
        multiple % boundary == 0,
    ensures
        (multiple - boundary) % boundary == 0,
{
    lemma_fundamental_div_mod(multiple, boundary);
    let quotient = multiple / boundary;
    assert(multiple - boundary == (quotient - 1) * boundary) by {
        lemma_mul_is_distributive_add(boundary, quotient - 1, 1);
        lemma_mul_is_commutative(boundary, quotient);
        lemma_mul_is_commutative(boundary, quotient - 1);
    }
    lemma_mod_multiples_basic(quotient - 1, boundary);
}

/// An address less than one boundary above a multiple of the boundary is in
/// the block that starts at that multiple.
proof fn lemma_block_of(addr: int, multiple: int, boundary: int)
    requires
        boundary > 0,
        multiple % boundary == 0,
        multiple <= addr < multiple + boundary,
    ensures
        addr / boundary == multiple / boundary,
{
    lemma_fundamental_div_mod(multiple, boundary);
    let quotient = multiple / boundary;
    assert(multiple == quotient * boundary) by {
        lemma_mul_is_commutative(boundary, quotient);
    }
    vstd::arithmetic::div_mod::lemma_fundamental_div_mod_converse(
        addr,
        boundary,
        quotient,
        addr - multiple,
    );
}

/// A multiple of a number is a multiple of whatever divides that number.
proof fn lemma_multiple_of_multiple(value: int, larger: int, smaller: int)
    requires
        larger > 0,
        smaller > 0,
        value % larger == 0,
        larger % smaller == 0,
    ensures
        value % smaller == 0,
{
    let times = value / larger;
    let each = larger / smaller;
    lemma_fundamental_div_mod(value, larger);
    lemma_fundamental_div_mod(larger, smaller);
    assert(value == (times * each) * smaller) by {
        assert(larger == smaller * each);
        assert(value == larger * times);
        lemma_mul_is_commutative(smaller, each);
        lemma_mul_is_commutative(each * smaller, times);
        lemma_mul_is_associative(times, each, smaller);
    }
    lemma_mod_multiples_basic(times * each, smaller);
}

/// Where one of alignment and boundary divides the other, the range starts
/// at a multiple of the alignment.
pub proof fn lemma_placement_is_aligned(cursor: int, size: int, alignment: int, boundary: int)
    requires
        alignment > 0,
        boundary > 0,
        boundary % alignment == 0 || alignment % boundary == 0,
    ensures
        placement(cursor, size, alignment, boundary) % alignment == 0,
{
    let aligned = round_up(cursor, alignment);
    let next = round_up(aligned, boundary);
    lemma_round_up_is_next_multiple(cursor, alignment);
    lemma_round_up_is_next_multiple(aligned, boundary);
    if boundary % alignment == 0 {
        lemma_multiple_of_multiple(next, boundary, alignment);
    } else {
        // The aligned start is itself a multiple of the boundary, so the
        // range is not moved.
        lemma_multiple_of_multiple(aligned, alignment, boundary);
        assert(next == aligned);
    }
}

/// Of two powers of two, the smaller divides the larger.
pub proof fn lemma_powers_of_two_divide(smaller: nat, larger: nat)
    requires
        smaller <= larger,
    ensures
        pow2(smaller) > 0,
        pow2(larger) % pow2(smaller) == 0,
{
    lemma_pow2_pos(smaller);
    lemma_pow2_adds((larger - smaller) as nat, smaller);
    lemma_mod_multiples_basic(pow2((larger - smaller) as nat) as int, pow2(smaller) as int);
}

/// Of any two powers of two, one divides the other.
pub proof fn lemma_two_powers_of_two(alignment: int, boundary: int)
    requires
        is_pow2(alignment),
        is_pow2(boundary),
    ensures
        divides_or_is_divided(alignment, boundary),
{
    is_pow2_equiv(alignment);
    is_pow2_equiv(boundary);
    assert(is_pow2_exists(alignment) && is_pow2_exists(boundary));
    let i = choose|i: nat| pow(2, i) == alignment;
    let j = choose|j: nat| pow(2, j) == boundary;
    assert(pow(2, i) == alignment && pow(2, j) == boundary);
    lemma_pow_positive(2, i);
    lemma_pow_positive(2, j);
    assert(pow2(i) == alignment && pow2(j) == boundary);
    if i <= j {
        lemma_powers_of_two_divide(i, j);
        lemma_pow2_pos(j);
    } else {
        lemma_powers_of_two_divide(j, i);
        lemma_pow2_pos(i);
    }
}

/// With a power of two for the alignment and a power of two for the
/// boundary, every range starts at a multiple of its alignment.
pub proof fn lemma_placement_is_aligned_to_power_of_two(
    cursor: int,
    size: int,
    alignment_log: nat,
    boundary_log: nat,
)
    ensures
        placement(cursor, size, pow2(alignment_log) as int, pow2(boundary_log) as int) % (pow2(
            alignment_log,
        ) as int) == 0,
{
    if alignment_log <= boundary_log {
        lemma_powers_of_two_divide(alignment_log, boundary_log);
        lemma_pow2_pos(boundary_log);
    } else {
        lemma_powers_of_two_divide(boundary_log, alignment_log);
        lemma_pow2_pos(alignment_log);
    }
    lemma_placement_is_aligned(
        cursor,
        size,
        pow2(alignment_log) as int,
        pow2(boundary_log) as int,
    );
}

/// The boundary that an allocator has unless it is made with another is a
/// power of two, the twelfth.
pub proof fn lemma_default_boundary_is_power_of_two()
    ensures
        BOUNDARY == pow2(12),
{
    lemma2_to64();
}

/// Serving a request keeps the books in order: the cursor stays within the
/// pool and never moves back, and a range handed out lies between the old
/// cursor and the new one, so within the pool and clear of every range
/// handed out before.
pub proof fn lemma_served_in_order(pool: Pool, size: int, alignment: int)
    requires
        cursor_in_pool(pool),
    ensures
        cursor_in_pool(served(pool, size, alignment).1),
        served(pool, size, alignment).1.base == pool.base,
        served(pool, size, alignment).1.end == pool.end,
        served(pool, size, alignment).1.boundary == pool.boundary,
        pool.cursor <= served(pool, size, alignment).1.cursor,
        served(pool, size, alignment).0 matches Some(range) ==> pool.cursor <= range.start
            && range.start + range.size == served(pool, size, alignment).1.cursor
            && range.size == size,
{
    if alignment > 0 {
        lemma_placement_not_below_cursor(pool.cursor as int, size, alignment, pool.boundary as int);
    }
}

/// A range handed out crosses no multiple of the boundary unless it is
/// longer than the boundary.
pub proof fn lemma_served_range_stays_in_one_block(pool: Pool, size: int, alignment: int)
    requires
        cursor_in_pool(pool),
        0 < size <= pool.boundary,
    ensures
        served(pool, size, alignment).0 matches Some(range) ==> (range.start as int) / (
        pool.boundary as int) == (range.start + range.size - 1) / (pool.boundary as int),
{
    if alignment > 0 {
        lemma_range_stays_in_one_block(pool.cursor as int, size, alignment, pool.boundary as int);
    }
}

/// A range handed out for an alignment that is a power of two, by an
/// allocator whose boundary is a power of two, starts at a multiple of the
/// alignment.
pub proof fn lemma_served_range_is_aligned(
    pool: Pool,
    size: int,
    alignment_log: nat,
    boundary_log: nat,
)
    requires
        pool.boundary == pow2(boundary_log),
    ensures
        served(pool, size, pow2(alignment_log) as int).0 matches Some(range) ==> (
        range.start as int) % (pow2(alignment_log) as int) == 0,
{
    lemma_placement_is_aligned_to_power_of_two(
        pool.cursor as int,
        size,
        alignment_log,
        boundary_log,
    );
}

/// A request for more bytes than the pool has left fails, and leaves the
/// pool as it was.
pub proof fn lemma_oversized_request_fails(pool: Pool, size: int, alignment: int)
    requires
        cursor_in_pool(pool),
        size > pool.end - pool.cursor,
    ensures
        served(pool, size, alignment) == (None::<Region>, pool),
{
    if alignment > 0 {
        lemma_placement_not_below_cursor(pool.cursor as int, size, alignment, pool.boundary as int);
    }
}

} // verus!
