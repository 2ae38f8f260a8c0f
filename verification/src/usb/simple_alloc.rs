//! A bump allocator over one fixed pool of memory.
//!
//! The allocator hands out address ranges and never takes one back. It keeps
//! books only: the pool itself belongs to whoever reserved it and is named
//! by its base address, which the allocator learns on first use. No range
//! handed out crosses a multiple of the allocator's boundary unless it is
//! longer than the boundary, because the controller cannot follow a
//! structure across such a line; and every range starts at a multiple of
//! the alignment asked for, as long as alignment and boundary are powers of
//! two.

use vstd::prelude::*;
use vstd::arithmetic::power2::is_pow2;
use crate::usb::alloc_laws::lemma_placement_is_aligned;
use crate::usb::alloc_laws::lemma_two_powers_of_two;

verus! {

/// Address multiple that a range may not cross, unless the allocator is
/// made with another.
pub const BOUNDARY: usize = 4096;

/// A range of addresses handed out by the allocator.
#[derive(Copy, Clone, Debug, PartialEq, Eq, Structural)]
pub struct Region {
    /// Address of the first byte.
    pub start: usize,
    /// Number of bytes.
    pub size: usize,
}

/// The pool as the allocator sees it.
#[derive(Copy, Clone, Debug, PartialEq, Eq, Structural)]
pub struct Pool {
    /// Address of the pool's first byte.
    pub base: usize,
    /// Address from which the next range is placed.
    pub cursor: usize,
    /// Address just past the pool's last byte.
    pub end: usize,
    /// Address multiple that a range may not cross.
    pub boundary: usize,
}

/// The least multiple of `alignment` that is not below `addr`.
pub open spec fn round_up(addr: int, alignment: int) -> int
    recommends
        alignment > 0,
{
    if addr % alignment == 0 {
        addr
    } else {
        addr + alignment - addr % alignment
    }
}

/// Where a range of `size` bytes starts when the cursor stands at `cursor`:
/// at the cursor rounded up to `alignment`, unless the range would from
/// there cross the next multiple of `boundary`, in which case it starts at
/// that multiple.
pub open spec fn placement(cursor: int, size: int, alignment: int, boundary: int) -> int
    recommends
        alignment > 0,
        boundary > 0,
{
    let aligned = round_up(cursor, alignment);
    let next_boundary = round_up(aligned, boundary);
    if aligned < next_boundary && next_boundary < aligned + size {
        next_boundary
    } else {
        aligned
    }
}

/// One of the two numbers divides the other, as is the case with any two
/// powers of two.
pub open spec fn divides_or_is_divided(alignment: int, boundary: int) -> bool {
    alignment > 0 && boundary > 0 && (boundary % alignment == 0 || alignment % boundary == 0)
}

/// What an allocator knows of its pool.
pub struct Books {
    /// The pool, once it has been captured.
    pub pool: Option<Pool>,
    /// Address multiple that a range may not cross.
    pub boundary: usize,
}

/// The pool an allocator works on from its first use: the one it already
/// has, or else the `n` bytes at `pool_base`, untouched.
pub open spec fn settled(books: Books, pool_base: usize, n: usize) -> Pool {
    match books.pool {
        Some(pool) => pool,
        None => Pool {
            base: pool_base,
            cursor: pool_base,
            end: (pool_base + n) as usize,
            boundary: books.boundary,
        },
    }
}

/// The cursor lies within the pool, and there is a boundary.
pub open spec fn cursor_in_pool(pool: Pool) -> bool {
    pool.base <= pool.cursor <= pool.end && pool.boundary > 0
}

/// What a request for `size` bytes aligned to `alignment` does to `pool`:
/// the range handed out, if any, and the pool afterwards.
///
/// The request succeeds exactly when `alignment` is not 0 and the range,
/// starting at [`placement`], ends within the pool. The cursor then moves to
/// the end of the range; otherwise the pool is unchanged.
pub open spec fn served(pool: Pool, size: int, alignment: int) -> (Option<Region>, Pool) {
    let start = placement(pool.cursor as int, size, alignment, pool.boundary as int);
    if alignment > 0 && 0 <= size <= usize::MAX && start + size <= pool.end {
        (
            Some(Region { start: start as usize, size: size as usize }),
            Pool { cursor: (start + size) as usize, ..pool },
        )
    } else {
        (None, pool)
    }
}

/// Books of a bump allocator over a pool of `N` bytes.
pub struct SimpleAlloc<const N: usize> {
    captured: bool,
    base: usize,
    current: usize,
    end: usize,
    boundary: usize,
}

impl<const N: usize> View for SimpleAlloc<N> {
    type V = Books;

    closed spec fn view(&self) -> Books {
        Books {
            pool: if self.captured {
                Some(
                    Pool {
                        base: self.base,
                        cursor: self.current,
                        end: self.end,
                        boundary: self.boundary,
                    },
                )
            } else {
                None
            },
            boundary: self.boundary,
        }
    }
}

impl<const N: usize> SimpleAlloc<N> {
    #[verifier::type_invariant]
    spec fn books_in_order(self) -> bool {
        self.base <= self.current <= self.end && self.boundary > 0
    }

    /// An allocator that has not seen its pool yet, with a boundary of
    /// [`BOUNDARY`].
    pub fn new() -> (alloc: Self)
        ensures
            alloc@ == (Books { pool: None, boundary: BOUNDARY }),
    {
        SimpleAlloc { captured: false, base: 0, current: 0, end: 0, boundary: BOUNDARY }
    }

    /// An allocator that has not seen its pool yet, with a boundary of its
    /// own.
    pub fn with_boundary(boundary: usize) -> (alloc: Self)
        requires
            boundary > 0,
        ensures
            alloc@ == (Books { pool: None, boundary }),
    {
        SimpleAlloc { captured: false, base: 0, current: 0, end: 0, boundary }
    }

    /// The pool as it stands, once captured; its cursor lies between its
    /// base and its end.
    pub fn pool(&self) -> (pool: Option<Pool>)
        ensures
            pool == self@.pool,
            pool matches Some(p) ==> cursor_in_pool(p),
    {
        proof {
            use_type_invariant(self);
        }
        if self.captured {
            Some(
                Pool {
                    base: self.base,
                    cursor: self.current,
                    end: self.end,
                    boundary: self.boundary,
                },
            )
        } else {
            None
        }
    }

    /// Captures the pool at `pool_base` on first use; later calls change
    /// nothing.
    pub fn do_initialize(&mut self, pool_base: usize)
        requires
            pool_base + N <= usize::MAX,
        ensures
            final(self)@ == (Books {
                pool: Some(settled(old(self)@, pool_base, N)),
                boundary: old(self)@.boundary,
            }),
            cursor_in_pool(settled(old(self)@, pool_base, N)),
    {
        proof {
            use_type_invariant(&*self);
        }
        if !self.captured {
            *self = SimpleAlloc {
                captured: true,
                base: pool_base,
                current: pool_base,
                end: pool_base + N,
                boundary: self.boundary,
            };
        }
    }

    /// Rounds `addr` up to a multiple of `alignment`. The result may lie past
    /// the last address, hence its width.
    pub fn roundup(addr: usize, alignment: usize) -> (rounded: u128)
        requires
            alignment > 0,
        ensures
            rounded == round_up(addr as int, alignment as int),
    {
        let over: usize = addr % alignment;
        if over == 0 {
            addr as u128
        } else {
            addr as u128 + (alignment - over) as u128
        }
    }

    /// Hands out `size` bytes aligned to `alignment`, or `None` when they do
    /// not fit in what is left of the pool. The pool at `pool_base` is
    /// captured if this is the first use. See [`served`]. The range starts
    /// at a multiple of `alignment` wherever one of alignment and boundary
    /// divides the other, as any two powers of two do.
    pub fn alloc_mem(
        &mut self,
        pool_base: usize,
        size: usize,
        alignment: usize,
    ) -> (region: Option<Region>)
        requires
            pool_base + N <= usize::MAX,
        ensures
            (region, final(self)@.pool.unwrap()) == served(
                settled(old(self)@, pool_base, N),
                size as int,
                alignment as int,
            ),
            final(self)@.pool is Some,
            final(self)@.boundary == old(self)@.boundary,
            cursor_in_pool(settled(old(self)@, pool_base, N)),
            cursor_in_pool(final(self)@.pool.unwrap()),
            region matches Some(range) ==> divides_or_is_divided(
                alignment as int,
                old(self)@.boundary as int,
            ) ==> range.start % alignment == 0,
            region matches Some(range) ==> is_pow2(alignment as int) && is_pow2(
                old(self)@.boundary as int,
            ) ==> range.start % alignment == 0,
    {
        self.do_initialize(pool_base);
        proof {
            use_type_invariant(&*self);
            if is_pow2(alignment as int) && is_pow2(self.boundary as int) {
                lemma_two_powers_of_two(alignment as int, self.boundary as int);
            }
            if alignment > 0 && divides_or_is_divided(alignment as int, self.boundary as int) {
                lemma_placement_is_aligned(
                    self.current as int,
                    size as int,
                    alignment as int,
                    self.boundary as int,
                );
            }
        }
        if alignment == 0 {
            return None;
        }
        let aligned: u128 = Self::roundup(self.current, alignment);
        let boundary: u128 = self.boundary as u128;
        let over: u128 = aligned % boundary;
        let next_boundary: u128 = if over == 0 {
            aligned
        } else {
            aligned + (boundary - over)
        };
        let mut ptr: u128 = aligned;
        if aligned < next_boundary && next_boundary < aligned + size as u128 {
            ptr = next_boundary;
        }
        if (self.end as u128) < ptr + size as u128 {
            None
        } else {
            self.current = (ptr + size as u128) as usize;
            Some(Region { start: ptr as usize, size })
        }
    }

    /// Hands out room for `count` values of type `T`, aligned for `T`, or
    /// `None` when they do not fit: a request for `count` times the size of
    /// `T`, at the alignment of `T`.
    pub fn alloc_slice<T>(&mut self, pool_base: usize, count: usize) -> (region: Option<Region>)
        requires
            pool_base + N <= usize::MAX,
        ensures
            (region, final(self)@.pool.unwrap()) == served(
                settled(old(self)@, pool_base, N),
                count * vstd::layout::size_of::<T>(),
                vstd::layout::align_of::<T>() as int,
            ),
            final(self)@.pool is Some,
            final(self)@.boundary == old(self)@.boundary,
            cursor_in_pool(settled(old(self)@, pool_base, N)),
            cursor_in_pool(final(self)@.pool.unwrap()),
    {
        let unit: usize = core::mem::size_of::<T>();
        let alignment: usize = core::mem::align_of::<T>();
        match count.checked_mul(unit) {
            Some(size) => self.alloc_mem(pool_base, size, alignment),
            None => {
                self.do_initialize(pool_base);
                proof {
                    use_type_invariant(&*self);
                }
                None
            },
        }
    }
}

} // verus!
