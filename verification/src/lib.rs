//! An allocation strategy that owns no memory, and owning handles over
//! storage that the caller lends.
//!
//! [`NoopAllocator`] never hands out fresh memory: it only says whether a
//! block can stay where it is under a new layout. The handles of
//! [`owning_ref`] and [`owning_slice`] borrow a caller's [`slot::Slot`]s, own
//! the values kept in them, and turn to the strategy when they are asked for
//! more room than was lent.

pub mod layout;
pub mod memory;
pub mod owning_ref;
pub mod owning_slice;
pub mod slot;

use crate::layout::Layout;
use crate::memory::{Address, MemoryBlock};
use core::marker::PhantomData;
use vstd::prelude::*;

verus! {

/// The answer of an allocation strategy that cannot satisfy a request.
#[derive(Clone, Copy, Debug, PartialEq, Eq)]
pub struct AllocError;

/// Whether a block at `ptr`, held under `old_layout`, already satisfies
/// `new_layout` where it stands: it is no larger than before, and `ptr` is a
/// multiple of the new alignment.
pub open spec fn fits_in_place(ptr: Address, old_layout: Layout, new_layout: Layout) -> bool {
    new_layout.size() <= old_layout.size() && ptr@ % new_layout.align() == 0
}

/// An allocation strategy that does nothing.
///
/// It has no memory of its own to give, so a request for fresh memory
/// succeeds only when it asks for no bytes, a request to resize succeeds only
/// when the block already satisfies the new layout in place, and giving
/// memory back does nothing. None of its operations asks that the address
/// was ever handed out by it, none follows the address, and each answers at
/// once through its result alone. The lifetime is that of the storage a
/// handle borrows.
pub struct NoopAllocator<'a>(PhantomData<&'a ()>);

impl<'a> NoopAllocator<'a> {
    /// Creates a new `NoopAllocator<'a>`.
    pub fn new() -> Self {
        NoopAllocator(PhantomData)
    }

    /// Answers a request for fresh memory: an empty block at an address
    /// aligned for `layout` when no bytes are asked for, an error otherwise.
    pub fn allocate(&self, layout: Layout) -> (r: Result<MemoryBlock, AllocError>)
        ensures
            layout.size() == 0 <==> r is Ok,
            r matches Ok(block) ==> block.ptr@ == layout.align() && block.len == 0,
            r matches Ok(block) ==> block.ptr@ % layout.align() == 0,
        no_unwind
    {
        if layout.size() == 0 {
            Ok(MemoryBlock { ptr: layout.dangling(), len: 0 })
        } else {
            Err(AllocError)
        }
    }

    /// Answers a request for fresh zeroed memory as [`Self::allocate`] does:
    /// the only block it ever returns has no bytes to zero.
    pub fn allocate_zeroed(&self, layout: Layout) -> (r: Result<MemoryBlock, AllocError>)
        ensures
            layout.size() == 0 <==> r is Ok,
            r matches Ok(block) ==> block.ptr@ == layout.align() && block.len == 0,
            r matches Ok(block) ==> block.ptr@ % layout.align() == 0,
        no_unwind
    {
        self.allocate(layout)
    }

    /// Takes a block back, which does nothing and cannot fail. `ptr` need
    /// not come from this strategy, nor `layout` match any earlier request:
    /// the address is never followed.
    pub fn deallocate(&self, ptr: Address, layout: Layout)
        opens_invariants none
        no_unwind
    {
    }

    /// Answers a request to resize the block at `ptr` from `old_layout` to
    /// `new_layout`: the same address with the new size when the block fits
    /// in place, an error otherwise. There is no memory to grow into, so a
    /// request that is larger than `old_layout` always fails.
    ///
    /// A caller is expected to ask for no less than `old_layout` holds. The
    /// answer does not depend on whether it did: only the test above
    /// decides.
    pub fn grow(&self, ptr: Address, old_layout: Layout, new_layout: Layout) -> (r: Result<
        MemoryBlock,
        AllocError,
    >)
        ensures
            fits_in_place(ptr, old_layout, new_layout) <==> r is Ok,
            r matches Ok(block) ==> block.ptr == ptr && block.len == new_layout.size(),
        no_unwind
    {
        self.grow_zeroed(ptr, old_layout, new_layout)
    }

    /// As [`Self::grow`]; no byte is ever added, so there is none to zero.
    pub fn grow_zeroed(&self, ptr: Address, old_layout: Layout, new_layout: Layout) -> (r: Result<
        MemoryBlock,
        AllocError,
    >)
        ensures
            fits_in_place(ptr, old_layout, new_layout) <==> r is Ok,
            r matches Ok(block) ==> block.ptr == ptr && block.len == new_layout.size(),
        no_unwind
    {
        if new_layout.size() > old_layout.size() || !ptr.is_aligned_for(new_layout) {
            return Err(AllocError);
        }
        Ok(MemoryBlock { ptr, len: new_layout.size() })
    }

    /// Answers a request to shrink the block at `ptr` from `old_layout` to
    /// `new_layout`: the same address with the new size when the block fits
    /// in place, an error otherwise.
    ///
    /// A caller is expected to ask for no more than `old_layout` holds. The
    /// answer does not depend on whether it did: only the test above
    /// decides.
    pub fn shrink(&self, ptr: Address, old_layout: Layout, new_layout: Layout) -> (r: Result<
        MemoryBlock,
        AllocError,
    >)
        ensures
            fits_in_place(ptr, old_layout, new_layout) <==> r is Ok,
            r matches Ok(block) ==> block.ptr == ptr && block.len == new_layout.size(),
        no_unwind
    {
        if new_layout.size() > old_layout.size() || !ptr.is_aligned_for(new_layout) {
            return Err(AllocError);
        }
        Ok(MemoryBlock { ptr, len: new_layout.size() })
    }
}

} // verus!
