//! Storage that a caller owns and lends to a handle.

use vstd::prelude::*;

verus! {

/// Room for one value of type `T`, which may or may not hold one yet.
///
/// A slot is what a handle borrows: the handle owns the value while it
/// lives, and the slot stays with the caller. A value that is still in the
/// slot when the caller lets the slot go is destroyed with it.
pub struct Slot<T> {
    pub value: Option<T>,
}

impl<T> Slot<T> {
    /// The value held, if there is one.
    pub open spec fn view(&self) -> Option<T> {
        self.value
    }

    /// A slot that holds no value.
    pub fn uninit() -> (r: Self)
        ensures
            r@ is None,
    {
        Slot { value: None }
    }

    /// A slot that holds `value`.
    pub fn new(value: T) -> (r: Self)
        ensures
            r@ == Some(value),
    {
        Slot { value: Some(value) }
    }

    /// Whether the slot holds a value.
    pub fn is_init(&self) -> (r: bool)
        ensures
            r == (self@ is Some),
    {
        self.value.is_some()
    }

    /// Puts `value` into the slot, in place of what it held.
    pub fn write(&mut self, value: T)
        ensures
            final(self)@ == Some(value),
        no_unwind
    {
        self.value = Some(value);
    }

    /// The value held, by reference.
    pub fn get(&self) -> (r: Option<&T>)
        ensures
            self@ is Some <==> r is Some,
            r matches Some(value) ==> self@ == Some(*value),
    {
        self.value.as_ref()
    }

    /// The value held, by mutable reference: what is written through it is
    /// what the slot holds afterwards.
    pub fn get_mut(&mut self) -> (r: Option<&mut T>)
        ensures
            old(self)@ is Some <==> r is Some,
            r matches Some(value) ==> old(self)@ == Some(*value) && final(self)@ == Some(
                *final(value),
            ),
            r is None ==> final(self)@ is None,
        no_unwind
    {
        match &mut self.value {
            Some(value) => Some(value),
            None => None,
        }
    }

    /// Moves the value out of the slot, which then holds none.
    pub fn take(&mut self) -> (r: Option<T>)
        ensures
            r == old(self)@,
            final(self)@ is None,
        no_unwind
    {
        let mut value = None;
        core::mem::swap(&mut value, &mut self.value);
        value
    }
}

/// Whether the first `len` of `cells` all hold a value.
pub open spec fn holds_values<T>(cells: Seq<Slot<T>>, len: nat) -> bool {
    &&& len <= cells.len()
    &&& forall|i: int| 0 <= i < len ==> (#[trigger] cells[i])@ is Some
}

/// The values held by the first `len` of `cells`, in order.
pub open spec fn held_values<T>(cells: Seq<Slot<T>>, len: nat) -> Seq<T> {
    Seq::new(len, |i: int| cells[i]@->0)
}

/// `cells` with none of those from `from` up to, but not including, `to`
/// holding a value any more.
pub open spec fn emptied_from<T>(cells: Seq<Slot<T>>, from: int, to: int) -> Seq<Slot<T>> {
    Seq::new(
        cells.len(),
        |i: int|
            if from <= i < to {
                Slot { value: None }
            } else {
                cells[i]
            },
    )
}

} // verus!
