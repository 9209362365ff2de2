//! Size-and-alignment descriptions of memory requests.

use crate::memory::Address;
use vstd::arithmetic::div_mod::{lemma_fundamental_div_mod_converse, lemma_mod_self_0};
use vstd::arithmetic::power::pow;
use vstd::arithmetic::power2::{
    is_pow2, is_pow2_equiv, lemma_pow2_adds, lemma_pow2_pos, lemma_pow2_strictly_increases, pow2,
};
use vstd::bits::{lemma_usize_low_bits_mask_is_mod, low_bits_mask};
use vstd::layout::{
    align_of, layout_for_type_is_valid, signed_int_min_max_values, size_of,
    unsigned_int_max_values, valid_layout,
};
use vstd::prelude::*;

verus! {

/// The reason a size and an alignment do not make a [`Layout`].
#[derive(Clone, Copy, Debug, PartialEq, Eq)]
pub struct LayoutError;

/// Whether `n` values of type `T` in a row make a block that a [`Layout`]
/// can describe: their bytes, rounded up to the alignment of `T`, do not
/// exceed `isize::MAX`.
pub open spec fn array_fits<T>(n: nat) -> bool {
    n * size_of::<T>() <= isize::MAX as int - (isize::MAX as int % align_of::<T>() as int)
}

/// The size and the alignment of a block of memory.
///
/// The alignment is a power of two, and the size, rounded up to the next
/// multiple of the alignment, does not exceed `isize::MAX`.
#[derive(Clone, Copy, Debug, PartialEq, Eq)]
pub struct Layout {
    size: usize,
    align: usize,
}

impl Layout {
    #[verifier::type_invariant]
    spec fn well_formed(self) -> bool {
        valid_layout(self.size, self.align)
    }

    /// The number of bytes of the block.
    pub closed spec fn spec_size(&self) -> usize {
        self.size
    }

    /// The alignment of the block, in bytes.
    pub closed spec fn spec_align(&self) -> usize {
        self.align
    }

    /// The layout of `size` bytes at alignment `align`, if there is one.
    pub fn from_size_align(size: usize, align: usize) -> (r: Result<Layout, LayoutError>)
        ensures
            valid_layout(size, align) <==> r is Ok,
            r matches Ok(layout) ==> layout.size() == size && layout.align() == align,
    {
        proof {
            lemma_single_bit_is_pow2(align);
        }
        if align == 0 || align & (align - 1) != 0 {
            return Err(LayoutError);
        }
        proof {
            lemma_signed_max_remainder(align);
        }
        if size > isize::MAX as usize - (align - 1) {
            return Err(LayoutError);
        }
        Ok(Layout { size, align })
    }

    /// The layout of one value of type `T`.
    pub fn new<T>() -> (r: Layout)
        ensures
            r.size() == size_of::<T>(),
            r.align() == align_of::<T>(),
    {
        layout_for_type_is_valid::<T>();
        Layout { size: core::mem::size_of::<T>(), align: core::mem::align_of::<T>() }
    }

    /// The layout of `n` values of type `T` in a row, if they fit the
    /// address space.
    pub fn array<T>(n: usize) -> (r: Result<Layout, LayoutError>)
        ensures
            array_fits::<T>(n as nat) <==> r is Ok,
            r matches Ok(layout) ==> layout.size() == n * size_of::<T>() && layout.align()
                == align_of::<T>(),
    {
        layout_for_type_is_valid::<T>();
        let elem = core::mem::size_of::<T>();
        proof {
            assert(elem * n == n * size_of::<T>()) by (nonlinear_arith)
                requires
                    elem == size_of::<T>(),
            ;
        }
        match elem.checked_mul(n) {
            Some(size) => Layout::from_size_align(size, core::mem::align_of::<T>()),
            None => Err(LayoutError),
        }
    }

    /// The number of bytes of the block.
    #[verifier::when_used_as_spec(spec_size)]
    pub fn size(&self) -> (r: usize)
        ensures
            r == self.size(),
            valid_layout(r, self.align()),
        no_unwind
    {
        proof {
            use_type_invariant(self);
        }
        self.size
    }

    /// The alignment of the block, in bytes: a power of two.
    #[verifier::when_used_as_spec(spec_align)]
    pub fn align(&self) -> (r: usize)
        ensures
            r == self.align(),
            is_pow2(r as int),
            r > 0,
        no_unwind
    {
        proof {
            use_type_invariant(self);
            reveal(is_pow2);
        }
        self.align
    }

    /// An address that is aligned for this layout and stands for no memory:
    /// the alignment itself.
    pub fn dangling(&self) -> (r: Address)
        ensures
            r@ == self.align(),
            r@ % self.align() == 0,
        no_unwind
    {
        let align = self.align();
        proof {
            lemma_mod_self_0(align as int);
        }
        Address::from_nonzero(align)
    }
}

/// Whether `n` has exactly one bit set, which is how the executable code
/// recognises a power of two.
spec fn single_bit(n: usize) -> bool {
    n != 0 && n & ((n - 1) as usize) == 0
}

proof fn lemma_single_bit_halves(n: usize)
    by (bit_vector)
    requires
        n > 1,
    ensures
        single_bit(n) <==> n % 2 == 0 && single_bit(n / 2),
{
}

/// A machine word has exactly one bit set if and only if it is a power of
/// two.
proof fn lemma_single_bit_is_pow2(n: usize)
    ensures
        single_bit(n) <==> is_pow2(n as int),
    decreases n,
{
    reveal(is_pow2);
    if n == 0 {
    } else if n == 1 {
        assert(single_bit(1usize)) by (bit_vector);
    } else {
        lemma_single_bit_halves(n);
        lemma_single_bit_is_pow2(n / 2);
    }
}

/// A power of two that fits a machine word is two raised to an exponent
/// below the word's width.
proof fn lemma_pow2_exponent(align: usize) -> (e: nat)
    requires
        is_pow2(align as int),
    ensures
        e < usize::BITS,
        pow2(e) == align,
{
    is_pow2_equiv(align as int);
    let e = choose|i: nat| pow(2, i) == align as int;
    unsigned_int_max_values();
    if e > usize::BITS {
        lemma_pow2_strictly_increases(usize::BITS as nat, e);
    }
    e
}

/// Masking a word with a power of two less one takes its remainder by that
/// power.
pub(crate) proof fn lemma_mask_is_remainder(x: usize, align: usize)
    requires
        is_pow2(align as int),
    ensures
        x & ((align - 1) as usize) == x % align,
{
    let e = lemma_pow2_exponent(align);
    lemma_usize_low_bits_mask_is_mod(x, e);
    lemma_pow2_pos(e);
    assert(low_bits_mask(e) == align - 1);
}

/// The largest signed word leaves the remainder `align - 1` by any power of
/// two `align`.
proof fn lemma_signed_max_remainder(align: usize)
    requires
        is_pow2(align as int),
    ensures
        (isize::MAX as int) % (align as int) == align - 1,
        align - 1 <= isize::MAX,
{
    let e = lemma_pow2_exponent(align);
    let rest = (usize::BITS - 1 - e) as nat;
    signed_int_min_max_values();
    lemma_pow2_adds(e, rest);
    lemma_pow2_pos(rest);
    let q = pow2(rest) as int;
    let a = align as int;
    assert(isize::MAX as int == a * q - 1);
    assert(a * q - 1 == a * (q - 1) + (a - 1)) by (nonlinear_arith);
    assert(a * (q - 1) >= 0) by (nonlinear_arith)
        requires
            a >= 0,
            q >= 1,
    ;
    lemma_fundamental_div_mod_converse(isize::MAX as int, a, q - 1, a - 1);
}

} // verus!
