//! Handles that own a growing and shrinking run of values kept in a borrowed
//! row of [`Slot`]s, whose number is the handle's capacity for good.

use crate::layout::{array_fits, Layout};
use crate::memory::{lent_memory, Address};
use crate::slot::{emptied_from, held_values, holds_values, Slot};
use crate::NoopAllocator;
use vstd::layout::size_of;
use vstd::prelude::*;

verus! {

/// Why a handle could not make room for more values.
#[derive(Clone, Copy, Debug, PartialEq, Eq)]
pub enum TryReserveError {
    /// No block of memory could hold that many values.
    CapacityOverflow,
    /// The allocation strategy refused the request.
    AllocError,
}

/// How a handle that was lent `capacity` slots answers a request for room
/// for `required` values of type `T` in all.
///
/// Room that was lent is there. Room beyond it would be a larger block of
/// memory: where no such block can exist the request overflows, and
/// otherwise the handle's strategy is asked for it and refuses.
pub open spec fn reserve_outcome<T>(capacity: nat, required: nat) -> Result<(), TryReserveError> {
    if required <= capacity {
        Ok(())
    } else if size_of::<T>() == 0 || !array_fits::<T>(required) {
        Err(TryReserveError::CapacityOverflow)
    } else {
        Err(TryReserveError::AllocError)
    }
}

/// What pushing `value` onto `elems` yields under `capacity`: the longer
/// run, or the reason there is no room for it.
pub open spec fn push_outcome<T>(elems: Seq<T>, capacity: nat, value: T) -> Result<
    Seq<T>,
    TryReserveError,
> {
    match reserve_outcome::<T>(capacity, elems.len() + 1) {
        Ok(_) => Ok(elems.push(value)),
        Err(e) => Err(e),
    }
}

/// What popping from `elems` yields: the shorter run and the value that
/// left it, if there was one.
pub open spec fn pop_outcome<T>(elems: Seq<T>) -> (Seq<T>, Option<T>) {
    if elems.len() == 0 {
        (elems, None)
    } else {
        (elems.drop_last(), Some(elems.last()))
    }
}

/// What pushing each of `values` in turn yields, starting from `elems` under
/// `capacity`: the run with all of them at its end, or the first refusal.
pub open spec fn push_all_outcome<T>(elems: Seq<T>, capacity: nat, values: Seq<T>) -> Result<
    Seq<T>,
    TryReserveError,
>
    decreases values.len(),
{
    if values.len() == 0 {
        Ok(elems)
    } else {
        match push_outcome(elems, capacity, values.first()) {
            Ok(longer) => push_all_outcome(longer, capacity, values.drop_first()),
            Err(e) => Err(e),
        }
    }
}

/// What popping `n` times from `elems` leaves.
pub open spec fn pop_n_outcome<T>(elems: Seq<T>, n: nat) -> Seq<T>
    decreases n,
{
    if n == 0 {
        elems
    } else {
        pop_n_outcome(pop_outcome(elems).0, (n - 1) as nat)
    }
}

/// Pushes succeed while there is room: values that fit the capacity
/// together with what is there all go in, in order, and none of them needs
/// more than was lent.
pub proof fn lemma_pushes_within_capacity<T>(elems: Seq<T>, capacity: nat, values: Seq<T>)
    requires
        elems.len() + values.len() <= capacity,
    ensures
        push_all_outcome(elems, capacity, values) == Ok::<Seq<T>, TryReserveError>(elems + values),
    decreases values.len(),
{
    if values.len() == 0 {
        assert(elems + values =~= elems);
    } else {
        let longer = elems.push(values.first());
        lemma_pushes_within_capacity(longer, capacity, values.drop_first());
        assert(longer + values.drop_first() =~= elems + values);
    }
}

/// A push onto a full handle fails, whatever is pushed. Where the values
/// take room and one more of them would still fit a block of memory, the
/// failure is the strategy's refusal; otherwise no such block can exist.
pub proof fn lemma_push_beyond_capacity<T>(elems: Seq<T>, capacity: nat, value: T)
    requires
        elems.len() == capacity,
    ensures
        push_outcome(elems, capacity, value) is Err,
        push_outcome(elems, capacity, value) == Err::<Seq<T>, TryReserveError>(
            TryReserveError::AllocError,
        ) <==> size_of::<T>() > 0 && array_fits::<T>(capacity + 1),
{
}

/// A handle that starts empty with `capacity` slots accepts exactly
/// `capacity` pushes: `values`, that many, all go in, and the push after
/// them fails.
pub proof fn lemma_accepts_exactly_capacity<T>(capacity: nat, values: Seq<T>, extra: T)
    requires
        values.len() == capacity,
    ensures
        push_all_outcome(Seq::<T>::empty(), capacity, values) == Ok::<Seq<T>, TryReserveError>(
            values,
        ),
        push_outcome(values, capacity, extra) is Err,
        size_of::<T>() > 0 && array_fits::<T>(capacity + 1) ==> push_outcome(
            values,
            capacity,
            extra,
        ) == Err::<Seq<T>, TryReserveError>(TryReserveError::AllocError),
{
    lemma_pushes_within_capacity(Seq::<T>::empty(), capacity, values);
    assert(Seq::<T>::empty() + values =~= values);
    lemma_push_beyond_capacity(values, capacity, extra);
}

/// Popping as many times as there are values leaves none.
pub proof fn lemma_pops_drain<T>(elems: Seq<T>)
    ensures
        pop_n_outcome(elems, elems.len()) == Seq::<T>::empty(),
    decreases elems.len(),
{
    if elems.len() == 0 {
        assert(elems =~= Seq::<T>::empty());
    } else {
        lemma_pops_drain(elems.drop_last());
    }
}

/// A handle that starts with `initial` under `capacity` can be emptied by
/// pops and then filled by pushes up to `capacity` values, all within the
/// room that was lent.
pub proof fn lemma_drain_then_refill<T>(initial: Seq<T>, capacity: nat, values: Seq<T>)
    requires
        initial.len() <= capacity,
        values.len() <= capacity,
    ensures
        push_all_outcome(pop_n_outcome(initial, initial.len()), capacity, values) == Ok::<
            Seq<T>,
            TryReserveError,
        >(values),
{
    lemma_pops_drain(initial);
    lemma_pushes_within_capacity(Seq::<T>::empty(), capacity, values);
    assert(Seq::<T>::empty() + values =~= values);
}

/// An owning slice: it borrows a row of slots and owns the values in the
/// first of them.
///
/// The number of slots is the capacity, which never changes, and the number
/// of values never exceeds it. Values come and go within it in place; a
/// request for more is put to the strategy, which refuses it. When the
/// handle goes, its values are destroyed with it, first to last, and the
/// slots stay with their owner.
pub struct OwningSlice<'a, T> {
    slot: &'a mut [Slot<T>],
    len: usize,
    memory: Option<(Address, Layout)>,
    alloc: NoopAllocator<'a>,
}

impl<'a, T> OwningSlice<'a, T> {
    #[verifier::type_invariant]
    spec fn within_capacity(self) -> bool {
        &&& holds_values(self.slot@, self.len as nat)
        &&& self.memory matches Some((_, layout)) ==> layout.size() == self.slot@.len()
            * size_of::<T>()
    }

    /// The borrowed row of slots. What it holds now is `self.slots()@`; what
    /// its owner finds in it when the borrow ends is `final(self.slots())@`.
    pub closed spec fn slots(&self) -> &'a mut [Slot<T>] {
        self.slot
    }

    /// The values that the handle owns, in order.
    pub closed spec fn view(&self) -> Seq<T> {
        held_values(self.slot@, self.len as nat)
    }

    /// The number of slots that were lent.
    pub open spec fn spec_capacity(&self) -> usize {
        self.slots()@.len() as usize
    }

    /// The values are those of the first slots, as many as there are
    /// values, and they do not outnumber the slots. This holds of every
    /// handle.
    pub open spec fn wf(&self) -> bool {
        &&& holds_values(self.slots()@, self@.len())
        &&& self@ == held_values(self.slots()@, self@.len())
    }

    /// A handle over `slot` that owns the values of its first `len` slots.
    pub(crate) fn from_parts(slot: &'a mut [Slot<T>], len: usize) -> (r: Self)
        requires
            holds_values(old(slot)@, len as nat),
        ensures
            r.wf(),
            r@ == held_values(old(slot)@, len as nat),
            r.slots()@ == old(slot)@,
            final(r.slots())@ == final(slot)@,
    {
        let memory = lent_memory::<T>(slot.len());
        OwningSlice { slot, len, memory, alloc: NoopAllocator::new() }
    }

    /// The number of values that the handle owns.
    pub fn len(&self) -> (r: usize)
        ensures
            r == self@.len(),
            self.wf(),
    {
        proof {
            use_type_invariant(self);
        }
        self.len
    }

    /// Whether the handle owns no value.
    pub fn is_empty(&self) -> (r: bool)
        ensures
            r == (self@.len() == 0),
    {
        self.len == 0
    }

    /// The number of values that the handle has room for.
    #[verifier::when_used_as_spec(spec_capacity)]
    pub fn capacity(&self) -> (r: usize)
        ensures
            r == self.capacity(),
            self@.len() <= r,
    {
        proof {
            use_type_invariant(self);
        }
        self.slot.len()
    }

    /// Asks for room for `additional` more values. Nothing changes: the
    /// room is there already, or it cannot be had.
    pub fn try_reserve(&self, additional: usize) -> (r: Result<(), TryReserveError>)
        ensures
            r == reserve_outcome::<T>(self.capacity() as nat, (self@.len() + additional) as nat),
    {
        proof {
            use_type_invariant(self);
        }
        let capacity = self.slot.len();
        let required = match self.len.checked_add(additional) {
            Some(required) => required,
            None => {
                proof {
                    lemma_beyond_address_space::<T>((self@.len() + additional) as nat);
                }
                return Err(TryReserveError::CapacityOverflow);
            },
        };
        if required <= capacity {
            return Ok(());
        }
        if core::mem::size_of::<T>() == 0 {
            return Err(TryReserveError::CapacityOverflow);
        }
        let new_layout = match Layout::array::<T>(required) {
            Ok(layout) => layout,
            Err(_) => {
                return Err(TryReserveError::CapacityOverflow);
            },
        };
        proof {
            lemma_array_fits_fewer::<T>(capacity as nat, required as nat);
        }
        let answer = match self.memory {
            Some((ptr, old_layout)) => self.alloc.grow(ptr, old_layout, new_layout),
            None => self.alloc.allocate(new_layout),
        };
        match answer {
            Err(_) => Err(TryReserveError::AllocError),
            Ok(_) => vstd::pervasive::unreached(),
        }
    }

    /// Adds `value` at the end, in the next free slot. When every slot is
    /// taken the handle asks for room for one more, is refused, and stays as
    /// it was; `value` is destroyed.
    pub fn push(&mut self, value: T) -> (r: Result<(), TryReserveError>)
        ensures
            final(self).wf(),
            final(self).capacity() == old(self).capacity(),
            match push_outcome(old(self)@, old(self).capacity() as nat, value) {
                Ok(elems) => r is Ok && final(self)@ == elems && final(self).slots()@ == old(
                    self,
                ).slots()@.update(old(self)@.len() as int, (Slot { value: Some(value) })),
                Err(e) => r == Err::<(), TryReserveError>(e) && final(self)@ == old(self)@
                    && final(self).slots()@ == old(self).slots()@,
            },
            final(final(self).slots())@ == final(old(self).slots())@,
    {
        proof {
            use_type_invariant(&*self);
        }
        if self.len == self.slot.len() {
            if let Err(e) = self.try_reserve(1) {
                return Err(e);
            }
        }
        self.slot[self.len].write(value);
        self.len = self.len + 1;
        Ok(())
    }

    /// Takes the last value out, leaving its slot free for the next push.
    pub fn pop(&mut self) -> (r: Option<T>)
        ensures
            final(self).wf(),
            final(self).capacity() == old(self).capacity(),
            (final(self)@, r) == pop_outcome(old(self)@),
            final(self).slots()@ == if r is Some {
                old(self).slots()@.update(old(self)@.len() - 1, (Slot { value: None }))
            } else {
                old(self).slots()@
            },
            final(final(self).slots())@ == final(old(self).slots())@,
    {
        proof {
            use_type_invariant(&*self);
        }
        if self.len == 0 {
            return None;
        }
        self.len = self.len - 1;
        self.slot[self.len].take()
    }

    /// The value at `index`, by reference, if the handle owns that many.
    pub fn get(&self, index: usize) -> (r: Option<&T>)
        ensures
            index < self@.len() <==> r is Some,
            r matches Some(value) ==> *value == self@[index as int],
    {
        proof {
            use_type_invariant(self);
        }
        if index < self.len {
            self.slot[index].get()
        } else {
            None
        }
    }

    /// The value at `index`, by mutable reference, if the handle owns that
    /// many: what is written through it is the value at `index` afterwards.
    pub fn get_mut(&mut self, index: usize) -> (r: Option<&mut T>)
        ensures
            index < old(self)@.len() <==> r is Some,
            final(self).wf(),
            final(self).capacity() == old(self).capacity(),
            match r {
                Some(value) => *value == old(self)@[index as int] && final(self)@ == old(
                    self,
                )@.update(index as int, *final(value)) && final(self).slots()@ == old(
                    self,
                ).slots()@.update(index as int, (Slot { value: Some(*final(value)) })),
                None => final(self)@ == old(self)@ && final(self).slots()@ == old(self).slots()@,
            },
            final(final(self).slots())@ == final(old(self).slots())@,
        no_unwind
    {
        proof {
            use_type_invariant(&*self);
        }
        if index < self.len {
            self.slot[index].get_mut()
        } else {
            None
        }
    }

    /// Destroys the values from `len` on, in order, and keeps the ones
    /// before. The slots that are freed stay with the handle.
    pub fn truncate(&mut self, len: usize)
        ensures
            final(self).wf(),
            final(self).capacity() == old(self).capacity(),
            final(self)@ == if len < old(self)@.len() {
                old(self)@.take(len as int)
            } else {
                old(self)@
            },
            final(self).slots()@ == emptied_from(
                old(self).slots()@,
                len as int,
                old(self)@.len() as int,
            ),
            final(final(self).slots())@ == final(old(self).slots())@,
    {
        proof {
            use_type_invariant(&*self);
        }
        let end = self.len;
        if len >= end {
            assert(self.slot@ =~= emptied_from(self.slot@, len as int, end as int));
            return ;
        }
        self.len = len;
        let mut i = len;
        while i < end
            invariant
                len <= i <= end <= self.slot@.len(),
                self.len == len,
                self.slot@ == emptied_from(old(self).slot@, len as int, i as int),
                final(self.slot)@ == final(old(self).slot)@,
                self.memory == old(self).memory,
                self.within_capacity(),
                old(self).within_capacity(),
            decreases end - i,
        {
            self.slot[i].value = None;
            i = i + 1;
        }
        assert(self@ =~= old(self)@.take(len as int));
    }

    /// Destroys every value. The handle is empty and its capacity is what it
    /// was.
    pub fn clear(&mut self)
        ensures
            final(self).wf(),
            final(self).capacity() == old(self).capacity(),
            final(self)@ == Seq::<T>::empty(),
            final(self).slots()@ == emptied_from(old(self).slots()@, 0, old(self)@.len() as int),
            final(final(self).slots())@ == final(old(self).slots())@,
    {
        self.truncate(0);
    }

    /// Destroys every value, in order, and gives the slots back to their
    /// owner now rather than when the handle goes. The slots that held the
    /// handle's values hold none; the spare ones are as they were. No memory
    /// is freed.
    pub fn destroy(self)
        ensures
            final(self.slots())@ == emptied_from(self.slots()@, 0, self@.len() as int),
    {
        let mut this = self;
        proof {
            use_type_invariant(&this);
        }
        let end = this.len;
        let memory = this.memory;
        this.len = 0;
        this.memory = None;
        let mut cells: &mut [Slot<T>] = &mut [];
        core::mem::swap(&mut cells, &mut this.slot);
        let ghost lent = cells@;
        let mut i: usize = 0;
        while i < end
            invariant
                i <= end <= cells@.len(),
                cells@ == emptied_from(lent, 0, i as int),
            decreases end - i,
        {
            cells[i].value = None;
            i = i + 1;
        }
        if let Some((ptr, layout)) = memory {
            this.alloc.deallocate(ptr, layout);
        }
    }
}

impl<'a, T> Drop for OwningSlice<'a, T> {
    fn drop(&mut self)
        opens_invariants none
        no_unwind
    {
        proof {
            use_type_invariant(&*self);
        }
        let end = self.len;
        self.len = 0;
        let mut i: usize = 0;
        while i < end
            invariant
                i <= end <= self.slot@.len(),
                self.len == 0,
                self.within_capacity(),
            decreases end - i,
        {
            self.slot[i].value = None;
            i = i + 1;
        }
        if let Some((ptr, layout)) = self.memory {
            self.alloc.deallocate(ptr, layout);
        }
    }
}

/// `core::slice::from_mut` of the standard library, which turns a mutable
/// reference to one value into a mutable slice of length one over the same
/// value, without copying. The contract says so: the slice shows the value
/// as it is, stays one long, and what it holds when the borrow ends is what
/// the reference holds.
pub assume_specification<T>[ core::slice::from_mut::<T> ](s: &mut T) -> (r: &mut [T])
    ensures
        r@ == seq![*old(s)],
        final(r)@.len() == 1,
        final(r)@[0] == *final(s),
;

/// An owning slice of length 1 and capacity 1 over the value that `slot`
/// already holds.
pub fn from_maybeuninit<'a, T>(slot: &'a mut Slot<T>) -> (r: OwningSlice<'a, T>)
    requires
        old(slot)@ is Some,
    ensures
        r.wf(),
        r@ == seq![old(slot)@->0],
        r.capacity() == 1,
        r.slots()@ == seq![*old(slot)],
        final(r.slots())@.len() == 1,
        final(r.slots())@[0] == *final(slot),
{
    let r = OwningSlice::from_parts(core::slice::from_mut(slot), 1);
    assert(r@ =~= seq![old(slot)@->0]);
    r
}

/// An owning slice over the values that the first `length` of `slot` already
/// hold. Its capacity is the number of slots; the slots from `length` on are
/// spare room for later pushes.
pub fn from_maybeuninit_slice<'a, T>(slot: &'a mut [Slot<T>], length: usize) -> (r: OwningSlice<
    'a,
    T,
>)
    requires
        holds_values(old(slot)@, length as nat),
    ensures
        r.wf(),
        r@ == held_values(old(slot)@, length as nat),
        r.capacity() == old(slot)@.len(),
        r.slots()@ == old(slot)@,
        final(r.slots())@ == final(slot)@,
{
    assert(vstd::slice::spec_slice_len(slot) == slot@.len());
    OwningSlice::from_parts(slot, length)
}

/// An empty owning slice of capacity 1 over `slot`, whatever it holds.
pub fn empty_from_maybeuninit<'a, T>(slot: &'a mut Slot<T>) -> (r: OwningSlice<'a, T>)
    ensures
        r.wf(),
        r@ == Seq::<T>::empty(),
        r.capacity() == 1,
        r.slots()@ == seq![*old(slot)],
        final(r.slots())@.len() == 1,
        final(r.slots())@[0] == *final(slot),
{
    let r = OwningSlice::from_parts(core::slice::from_mut(slot), 0);
    assert(r@ =~= Seq::<T>::empty());
    r
}

/// An empty owning slice over `slot`, whatever its slots hold. Its capacity
/// is the number of slots.
pub fn empty_from_maybeuninit_slice<'a, T>(slot: &'a mut [Slot<T>]) -> (r: OwningSlice<'a, T>)
    ensures
        r.wf(),
        r@ == Seq::<T>::empty(),
        r.capacity() == old(slot)@.len(),
        r.slots()@ == old(slot)@,
        final(slot)@ == final(r.slots())@,
{
    assert(vstd::slice::spec_slice_len(slot) == slot@.len());
    let r = OwningSlice::from_parts(slot, 0);
    assert(r@ =~= Seq::<T>::empty());
    r
}

/// More values than a machine word can count fit no block of memory.
proof fn lemma_beyond_address_space<T>(n: nat)
    requires
        n > usize::MAX,
    ensures
        size_of::<T>() == 0 || !array_fits::<T>(n),
{
    if size_of::<T>() != 0 {
        assert(n * size_of::<T>() >= n) by (nonlinear_arith)
            requires
                size_of::<T>() >= 1,
        ;
    }
}

/// Fewer values take fewer bytes: where `more` fit a block, `fewer` do, and
/// in strictly less room unless the values take no room at all.
proof fn lemma_array_fits_fewer<T>(fewer: nat, more: nat)
    requires
        fewer < more,
        array_fits::<T>(more),
    ensures
        array_fits::<T>(fewer),
        fewer * size_of::<T>() <= more * size_of::<T>(),
        size_of::<T>() > 0 ==> fewer * size_of::<T>() < more * size_of::<T>(),
{
    let size = size_of::<T>();
    assert(fewer * size <= more * size) by (nonlinear_arith)
        requires
            fewer < more,
    ;
    if size > 0 {
        assert(fewer * size < more * size) by (nonlinear_arith)
            requires
                fewer < more,
                size > 0,
        ;
    }
}

} // verus!
