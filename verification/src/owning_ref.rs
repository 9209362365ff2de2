//! Handles that own one value kept in a borrowed [`Slot`], or a whole
//! borrowed row of them.

use crate::layout::Layout;
use crate::memory::{lent_memory, Address};
use crate::owning_slice::OwningSlice;
use crate::slot::{emptied_from, held_values, holds_values, Slot};
use crate::NoopAllocator;
use vstd::prelude::*;

verus! {

/// The borrow of a slot together with the duty to destroy its value, which
/// is done when this goes, unless the borrow was released before.
struct OwnedSlot<'a, T> {
    slot: Option<&'a mut Slot<T>>,
    memory: Option<(Address, Layout)>,
    alloc: NoopAllocator<'a>,
}

impl<'a, T> OwnedSlot<'a, T> {
    /// The value in the borrowed slot, by mutable reference.
    fn value_mut(&mut self) -> (r: &mut T)
        requires
            old(self).slot matches Some(slot) && slot@ is Some,
        ensures
            *r == old(self).slot->0@->0,
            final(self).slot matches Some(slot) && slot@ == Some(*final(r)),
            *final(final(self).slot->0) == *final(old(self).slot->0),
            final(self).memory == old(self).memory,
        no_unwind
    {
        match &mut self.slot {
            Some(slot) => match &mut slot.value {
                Some(value) => value,
                None => vstd::pervasive::unreached(),
            },
            None => vstd::pervasive::unreached(),
        }
    }
}

impl<'a, T> OwnedSlot<'a, T> {
    /// Hands the borrow out, so that nothing is destroyed when this goes.
    fn release(self) -> (r: Option<&'a mut Slot<T>>)
        ensures
            r == self.slot,
    {
        let mut this = self;
        let mut taken: Option<&'a mut Slot<T>> = None;
        core::mem::swap(&mut taken, &mut this.slot);
        taken
    }
}

impl<'a, T> Drop for OwnedSlot<'a, T> {
    fn drop(&mut self)
        opens_invariants none
        no_unwind
    {
        let mut taken: Option<&'a mut Slot<T>> = None;
        core::mem::swap(&mut taken, &mut self.slot);
        match taken {
            Some(slot) => {
                slot.value = None;
            },
            None => {},
        }
        if let Some((ptr, layout)) = self.memory {
            self.alloc.deallocate(ptr, layout);
        }
    }
}

/// An owning reference: it borrows a slot and owns the value in it.
///
/// While the handle lives the slot holds a value, which is the handle's to
/// read, change, move out or destroy. When the handle goes, the value is
/// destroyed with it; the slot stays with its owner and is never freed, for
/// the handle's strategy has nothing to free.
pub struct OwningRef<'a, T> {
    cell: OwnedSlot<'a, T>,
}

impl<'a, T> OwningRef<'a, T> {
    #[verifier::type_invariant]
    spec fn holds_value(self) -> bool {
        self.cell.slot matches Some(slot) && slot@ is Some
    }

    /// The borrowed slot. What it holds now is `self.slot()@`; what its
    /// owner finds in it when the borrow ends is `final(self.slot())@`.
    pub closed spec fn slot(&self) -> &'a mut Slot<T> {
        self.cell.slot->0
    }

    /// The value that the handle owns.
    pub closed spec fn view(&self) -> T {
        self.cell.slot->0@->0
    }

    /// The value is the one that the borrowed slot holds. This holds of
    /// every handle.
    pub open spec fn wf(&self) -> bool {
        self.slot()@ == Some(self@)
    }

    /// A handle over `slot`, which holds a value.
    fn from_slot(slot: &'a mut Slot<T>) -> (r: Self)
        requires
            old(slot)@ is Some,
        ensures
            r.wf(),
            r@ == old(slot)@->0,
            *r.slot() == *old(slot),
            *final(r.slot()) == *final(slot),
    {
        OwningRef {
            cell: OwnedSlot {
                slot: Some(slot),
                memory: lent_memory::<T>(1),
                alloc: NoopAllocator::new(),
            },
        }
    }

    /// The value, by reference.
    pub fn get(&self) -> (r: &T)
        ensures
            *r == self@,
            self.wf(),
    {
        proof {
            use_type_invariant(self);
        }
        match &self.cell.slot {
            Some(slot) => match slot.get() {
                Some(value) => value,
                None => vstd::pervasive::unreached(),
            },
            None => vstd::pervasive::unreached(),
        }
    }

    /// The value, by mutable reference: what is written through it is the
    /// handle's value afterwards.
    pub fn get_mut(&mut self) -> (r: &mut T)
        ensures
            *r == old(self)@,
            final(self).wf(),
            final(self)@ == *final(r),
            *final(final(self).slot()) == *final(old(self).slot()),
        no_unwind
    {
        proof {
            use_type_invariant(&*self);
        }
        self.cell.value_mut()
    }

    /// Moves the value out and gives the slot back to its owner, which is
    /// left holding no value.
    pub fn into_inner(self) -> (r: T)
        ensures
            r == self@,
            final(self.slot())@ is None,
    {
        proof {
            use_type_invariant(&self);
        }
        let OwningRef { cell } = self;
        let slot = cell.release().unwrap();
        slot.take().unwrap()
    }

    /// Destroys the value and gives the slot back to its owner now rather
    /// than when the handle goes. The slot is left holding no value; its
    /// memory is not freed.
    pub fn destroy(self)
        ensures
            final(self.slot())@ is None,
    {
        proof {
            use_type_invariant(&self);
        }
        let OwningRef { cell } = self;
        let slot = cell.release().unwrap();
        slot.value = None;
    }
}

/// An owning reference to a whole row of values: it borrows the slots and
/// owns the value in each of them.
///
/// Its length is the number of slots, for good: values are read and changed
/// in place, and none comes or goes while the handle lives. When the handle
/// goes, the values are destroyed with it, first to last.
pub struct OwningSliceRef<'a, T> {
    row: OwningSlice<'a, T>,
}

impl<'a, T> OwningSliceRef<'a, T> {
    #[verifier::type_invariant]
    spec fn owns_every_slot(self) -> bool {
        self.row@.len() == self.row.slots()@.len()
    }

    /// The borrowed row of slots. What it holds now is `self.slots()@`; what
    /// its owner finds in it when the borrow ends is `final(self.slots())@`.
    pub closed spec fn slots(&self) -> &'a mut [Slot<T>] {
        self.row.slots()
    }

    /// The values that the handle owns, in order.
    pub closed spec fn view(&self) -> Seq<T> {
        self.row@
    }

    /// There is a value for each slot, the one that the slot holds. This
    /// holds of every handle.
    pub open spec fn wf(&self) -> bool {
        &&& self@.len() == self.slots()@.len()
        &&& holds_values(self.slots()@, self@.len())
        &&& self@ == held_values(self.slots()@, self@.len())
    }

    /// The number of values.
    pub fn len(&self) -> (r: usize)
        ensures
            r == self@.len(),
            self.wf(),
    {
        proof {
            use_type_invariant(self);
        }
        self.row.len()
    }

    /// The value at `index`, by reference, if there are that many.
    pub fn get(&self, index: usize) -> (r: Option<&T>)
        ensures
            index < self@.len() <==> r is Some,
            r matches Some(value) ==> *value == self@[index as int],
    {
        self.row.get(index)
    }

    /// The value at `index`, by mutable reference, if there are that many:
    /// what is written through it is the value at `index` afterwards.
    pub fn get_mut(&mut self, index: usize) -> (r: Option<&mut T>)
        ensures
            index < old(self)@.len() <==> r is Some,
            final(self).wf(),
            match r {
                Some(value) => *value == old(self)@[index as int] && final(self)@ == old(
                    self,
                )@.update(index as int, *final(value)) && final(self).slots()@ == old(
                    self,
                ).slots()@.update(index as int, (Slot { value: Some(*final(value)) })),
                None => final(self)@ == old(self)@ && final(self).slots()@ == old(self).slots()@,
            },
            final(final(self).slots())@ == final(old(self).slots())@,
        no_unwind
    {
        proof {
            use_type_invariant(&*self);
        }
        self.row.get_mut(index)
    }

    /// Destroys the values, first to last, and gives the slots back to their
    /// owner now rather than when the handle goes. None of the slots holds a
    /// value any more. No memory is freed.
    pub fn destroy(self)
        ensures
            final(self.slots())@ == emptied_from(self.slots()@, 0, self.slots()@.len() as int),
    {
        proof {
            use_type_invariant(&self);
        }
        let OwningSliceRef { row } = self;
        row.destroy();
    }
}

/// An owning reference to the value of a slot whose owner manages that value
/// by hand. The slot must hold a value; the handle takes over the duty to
/// destroy it.
pub fn from_manuallydrop<'a, T>(slot: &'a mut Slot<T>) -> (r: OwningRef<'a, T>)
    requires
        old(slot)@ is Some,
    ensures
        r.wf(),
        r@ == old(slot)@->0,
        *r.slot() == *old(slot),
        *final(r.slot()) == *final(slot),
{
    OwningRef::from_slot(slot)
}

/// An owning reference to the value that `slot` already holds.
pub fn from_maybeuninit<'a, T>(slot: &'a mut Slot<T>) -> (r: OwningRef<'a, T>)
    requires
        old(slot)@ is Some,
    ensures
        r.wf(),
        r@ == old(slot)@->0,
        *r.slot() == *old(slot),
        *final(r.slot()) == *final(slot),
{
    OwningRef::from_slot(slot)
}

/// Writes `value` into `slot`, whatever it held, and returns an owning
/// reference to it.
pub fn from_maybeuninit_write<'a, T>(slot: &'a mut Slot<T>, value: T) -> (r: OwningRef<'a, T>)
    ensures
        r.wf(),
        r@ == value,
        *final(r.slot()) == *final(slot),
{
    slot.write(value);
    OwningRef::from_slot(slot)
}

/// An owning reference to the whole row of values that the slots of `slot`
/// already hold.
pub fn from_maybeuninit_slice<'a, T>(slot: &'a mut [Slot<T>]) -> (r: OwningSliceRef<'a, T>)
    requires
        holds_values(old(slot)@, old(slot)@.len()),
    ensures
        r.wf(),
        r@ == held_values(old(slot)@, old(slot)@.len()),
        r.slots()@ == old(slot)@,
        final(r.slots())@ == final(slot)@,
{
    let len = slot.len();
    OwningSliceRef { row: OwningSlice::from_parts(slot, len) }
}

} // verus!
