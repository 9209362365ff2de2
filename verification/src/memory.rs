//! Addresses and the blocks of memory that start at them.

use crate::layout::{array_fits, lemma_mask_is_remainder, Layout};
use vstd::layout::{align_of, size_of};
use vstd::prelude::*;

verus! {

/// The address of a byte of memory: a machine word that is never zero.
#[derive(Clone, Copy, Debug, PartialEq, Eq)]
pub struct Address {
    addr: usize,
}

impl Address {
    #[verifier::type_invariant]
    spec fn non_null(self) -> bool {
        self.addr != 0
    }

    /// The address as a number.
    pub closed spec fn view(&self) -> usize {
        self.addr
    }

    /// The address `addr`, unless `addr` is zero.
    pub fn new(addr: usize) -> (r: Option<Address>)
        ensures
            addr != 0 <==> r is Some,
            r matches Some(a) ==> a@ == addr,
    {
        if addr == 0 {
            None
        } else {
            Some(Address { addr })
        }
    }

    /// The address `addr`, which is not zero.
    pub(crate) fn from_nonzero(addr: usize) -> (r: Address)
        requires
            addr != 0,
        ensures
            r@ == addr,
        no_unwind
    {
        Address { addr }
    }

    /// The address as a number.
    pub fn addr(&self) -> (r: usize)
        ensures
            r == self@,
            r != 0,
        no_unwind
    {
        proof {
            use_type_invariant(self);
        }
        self.addr
    }

    /// Whether the address is a multiple of the alignment of `layout`.
    pub fn is_aligned_for(&self, layout: Layout) -> (r: bool)
        ensures
            r <==> self@ % layout.align() == 0,
        no_unwind
    {
        let align = layout.align();
        proof {
            lemma_mask_is_remainder(self.addr, align);
        }
        self.addr & (align - 1) == 0
    }
}

/// A run of bytes: the address of the first one, and how many there are.
#[derive(Clone, Copy, Debug, PartialEq, Eq)]
pub struct MemoryBlock {
    pub ptr: Address,
    pub len: usize,
}

/// The memory that `count` values of type `T` in a row take up, as their
/// handle describes it to its strategy: where it starts and its layout, or
/// nothing when there are no values, when they take no room, or when no
/// layout describes that many.
///
/// The handle never follows the address; it stands for the lent storage by
/// being aligned for `T`.
pub(crate) fn lent_memory<T>(count: usize) -> (r: Option<(Address, Layout)>)
    ensures
        r is Some <==> count > 0 && size_of::<T>() > 0 && array_fits::<T>(count as nat),
        r matches Some((ptr, layout)) ==> ptr@ == align_of::<T>() && layout.size() == count
            * size_of::<T>() && layout.align() == align_of::<T>(),
{
    if count == 0 || core::mem::size_of::<T>() == 0 {
        return None;
    }
    match Layout::array::<T>(count) {
        Ok(layout) => Some((Layout::new::<T>().dangling(), layout)),
        Err(_) => None,
    }
}

} // verus!
