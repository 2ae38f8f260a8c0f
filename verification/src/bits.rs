//! Single-bit access to unsigned integers of any width.
//!
//! Hardware registers pack many one-bit flags into one machine word. The
//! [`BitField`] trait reads and writes one flag at a time; it is implemented
//! for `u8`, `u16`, `u32` and `u64`, and its contracts are stated once, over
//! the value widened to 64 bits.

use vstd::prelude::*;

verus! {

/// Whether bit `bit` of `value` is set, counting from the least significant bit.
pub open spec fn bit_is_set(value: u64, bit: u32) -> bool {
    (value >> bit) & 1 == 1
}

/// `value` with bit `bit` forced to `on` and every other bit as it was.
pub open spec fn with_bit(value: u64, bit: u32, on: bool) -> u64 {
    if on {
        value | (1u64 << bit)
    } else {
        value & !(1u64 << bit)
    }
}

/// An unsigned integer whose bits can be read and written one by one.
pub trait BitField: Sized {
    /// Number of bits in the type.
    spec fn width() -> u32;

    /// The value, widened to 64 bits without changing it.
    spec fn wide(&self) -> u64;

    /// Tells whether bit `bit` is set.
    fn get_bit(&self, bit: u32) -> (set: bool)
        requires
            bit < Self::width(),
        ensures
            set == bit_is_set(self.wide(), bit),
    ;

    /// Sets bit `bit` when `on` is true and clears it otherwise; no other bit
    /// changes.
    fn set_bit(&mut self, bit: u32, on: bool)
        requires
            bit < Self::width(),
        ensures
            final(self).wide() == with_bit(old(self).wide(), bit, on),
    ;
}

impl BitField for u8 {
    open spec fn width() -> u32 {
        8
    }

    open spec fn wide(&self) -> u64 {
        *self as u64
    }

    fn get_bit(&self, bit: u32) -> (set: bool) {
        let value: u8 = *self;
        let mask: u8 = 1u8 << bit;
        assert(((value & (1u8 << bit)) == (1u8 << bit)) == (((value as u64) >> bit) & 1 == 1))
            by (bit_vector)
            requires
                bit < 8,
        ;
        (value & mask) == mask
    }

    fn set_bit(&mut self, bit: u32, on: bool) {
        let value: u8 = *self;
        let mask: u8 = 1u8 << bit;
        assert((value | (1u8 << bit)) as u64 == (value as u64) | (1u64 << bit)) by (bit_vector)
            requires
                bit < 8,
        ;
        assert((value & !(1u8 << bit)) as u64 == (value as u64) & !(1u64 << bit))
            by (bit_vector)
            requires
                bit < 8,
        ;
        if on {
            *self = value | mask;
        } else {
            *self = value & !mask;
        }
    }
}

impl BitField for u16 {
    open spec fn width() -> u32 {
        16
    }

    open spec fn wide(&self) -> u64 {
        *self as u64
    }

    fn get_bit(&self, bit: u32) -> (set: bool) {
        let value: u16 = *self;
        let mask: u16 = 1u16 << bit;
        assert(((value & (1u16 << bit)) == (1u16 << bit)) == (((value as u64) >> bit) & 1 == 1))
            by (bit_vector)
            requires
                bit < 16,
        ;
        (value & mask) == mask
    }

    fn set_bit(&mut self, bit: u32, on: bool) {
        let value: u16 = *self;
        let mask: u16 = 1u16 << bit;
        assert((value | (1u16 << bit)) as u64 == (value as u64) | (1u64 << bit)) by (bit_vector)
            requires
                bit < 16,
        ;
        assert((value & !(1u16 << bit)) as u64 == (value as u64) & !(1u64 << bit))
            by (bit_vector)
            requires
                bit < 16,
        ;
        if on {
            *self = value | mask;
        } else {
            *self = value & !mask;
        }
    }
}

impl BitField for u32 {
    open spec fn width() -> u32 {
        32
    }

    open spec fn wide(&self) -> u64 {
        *self as u64
    }

    fn get_bit(&self, bit: u32) -> (set: bool) {
        let value: u32 = *self;
        let mask: u32 = 1u32 << bit;
        assert(((value & (1u32 << bit)) == (1u32 << bit)) == (((value as u64) >> bit) & 1 == 1))
            by (bit_vector)
            requires
                bit < 32,
        ;
        (value & mask) == mask
    }

    fn set_bit(&mut self, bit: u32, on: bool) {
        let value: u32 = *self;
        let mask: u32 = 1u32 << bit;
        assert((value | (1u32 << bit)) as u64 == (value as u64) | (1u64 << bit)) by (bit_vector)
            requires
                bit < 32,
        ;
        assert((value & !(1u32 << bit)) as u64 == (value as u64) & !(1u64 << bit))
            by (bit_vector)
            requires
                bit < 32,
        ;
        if on {
            *self = value | mask;
        } else {
            *self = value & !mask;
        }
    }
}

impl BitField for u64 {
    open spec fn width() -> u32 {
        64
    }

    open spec fn wide(&self) -> u64 {
        *self
    }

    fn get_bit(&self, bit: u32) -> (set: bool) {
        let value: u64 = *self;
        let mask: u64 = 1u64 << bit;
        assert(((value & (1u64 << bit)) == (1u64 << bit)) == ((value >> bit) & 1 == 1))
            by (bit_vector)
            requires
                bit < 64,
        ;
        (value & mask) == mask
    }

    fn set_bit(&mut self, bit: u32, on: bool) {
        let value: u64 = *self;
        let mask: u64 = 1u64 << bit;
        if on {
            *self = value | mask;
        } else {
            *self = value & !mask;
        }
    }
}

/// Writing one bit is seen by a later read of that bit and of no other:
/// after `with_bit(value, bit, on)`, bit `bit` reads `on` and every other
/// bit reads as it did in `value`.
pub proof fn lemma_with_bit_reads_back(value: u64, bit: u32, on: bool, other: u32)
    requires
        bit < 64,
        other < 64,
    ensures
        bit_is_set(with_bit(value, bit, on), other) == (if other == bit {
            on
        } else {
            bit_is_set(value, other)
        }),
{
    assert(bit_is_set(value | (1u64 << bit), other) == (if other == bit {
        true
    } else {
        bit_is_set(value, other)
    })) by (bit_vector)
        requires
            bit < 64,
            other < 64,
    ;
    assert(bit_is_set(value & !(1u64 << bit), other) == (if other == bit {
        false
    } else {
        bit_is_set(value, other)
    })) by (bit_vector)
        requires
            bit < 64,
            other < 64,
    ;
}

/// Writing a bit below `width` never disturbs the bits at or above `width`:
/// a value that fits in `width` bits still fits after the write.
pub proof fn lemma_with_bit_keeps_width(value: u64, bit: u32, on: bool, width: u32)
    requires
        bit < width <= 64,
        width < 64 ==> value < (1u64 << width),
    ensures
        width < 64 ==> with_bit(value, bit, on) < (1u64 << width),
{
    if width < 64 {
        assert((value | (1u64 << bit)) < (1u64 << width)) by (bit_vector)
            requires
                bit < width,
                width < 64,
                value < (1u64 << width),
        ;
        assert((value & !(1u64 << bit)) < (1u64 << width)) by (bit_vector)
            requires
                value < (1u64 << width),
        ;
    }
}

/// Setting a bit twice, or clearing it twice, is the same as doing it once,
/// and the last write wins.
pub proof fn lemma_with_bit_last_write_wins(value: u64, bit: u32, first: bool, second: bool)
    requires
        bit < 64,
    ensures
        with_bit(with_bit(value, bit, first), bit, second) == with_bit(value, bit, second),
{
    let mask = 1u64 << bit;
    assert(((value | mask) | mask) == (value | mask) && ((value & !mask) | mask) == (value | mask)
        && ((value | mask) & !mask) == (value & !mask) && ((value & !mask) & !mask) == (value
        & !mask)) by (bit_vector);
}

} // verus!
