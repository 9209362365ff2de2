use noop_allocator::owning_slice::{
    empty_from_maybeuninit, empty_from_maybeuninit_slice, from_maybeuninit,
    from_maybeuninit_slice, OwningSlice, TryReserveError,
};
use noop_allocator::slot::Slot;
use std::cell::Cell;
use std::rc::Rc;

struct Marked {
    drops: Rc<Cell<u32>>,
    mark: u32,
}

impl Drop for Marked {
    fn drop(&mut self) {
        self.drops.set(self.drops.get() + 1);
    }
}

fn contents_of(handle: &OwningSlice<'_, String>) -> Vec<String> {
    (0..handle.len()).map(|i| handle.get(i).unwrap().clone()).collect()
}

#[test]
fn single_element_handle_has_length_and_capacity_one() {
    let mut buf: Slot<String> = Slot::new("Hello, world!".to_string());
    let mut vec = from_maybeuninit(&mut buf);
    assert_eq!(contents_of(&vec), ["Hello, world!"]);
    assert_eq!(vec.len(), 1);
    assert_eq!(vec.capacity(), 1);
    assert_eq!(vec.pop().as_deref(), Some("Hello, world!"));
    assert_eq!(vec.push("Hi!".to_string()), Ok(()));
    assert_eq!(contents_of(&vec), ["Hi!"]);
}

#[test]
fn slice_handle_with_one_initialized_element() {
    let mut buf: [Slot<String>; 4] = [Slot::uninit(), Slot::uninit(), Slot::uninit(), Slot::uninit()];
    buf[0] = Slot::new("Hello, world!".to_string());
    let mut vec = from_maybeuninit_slice(&mut buf, 1);
    assert_eq!(contents_of(&vec), ["Hello, world!"]);
    assert_eq!(vec.capacity(), 4);
    assert_eq!(vec.pop().as_deref(), Some("Hello, world!"));
    assert!(vec.is_empty());
    assert_eq!(vec.capacity(), 4);
    assert_eq!(vec.push("Hi!".to_string()), Ok(()));
    assert_eq!(contents_of(&vec), ["Hi!"]);
    assert_eq!(vec.capacity(), 4);
}

#[test]
fn empty_single_element_handle_takes_one_push() {
    let mut buf: Slot<String> = Slot::uninit();
    let mut vec = empty_from_maybeuninit(&mut buf);
    assert!(vec.is_empty());
    assert_eq!(vec.len(), 0);
    assert_eq!(vec.capacity(), 1);
    assert_eq!(vec.push("Hello, world!".to_string()), Ok(()));
    assert_eq!(vec.len(), 1);
    assert_eq!(contents_of(&vec), ["Hello, world!"]);
    assert_eq!(vec.push("one too many".to_string()), Err(TryReserveError::AllocError));
    assert_eq!(vec.len(), 1);
    assert_eq!(vec.capacity(), 1);
    assert_eq!(contents_of(&vec), ["Hello, world!"]);
}

#[test]
fn empty_slice_handle_has_the_capacity_of_the_slice() {
    let mut buf: [Slot<String>; 4] = [Slot::uninit(), Slot::uninit(), Slot::uninit(), Slot::uninit()];
    let mut vec = empty_from_maybeuninit_slice(&mut buf);
    assert!(vec.is_empty());
    assert_eq!(vec.capacity(), 4);
    assert_eq!(vec.push("Hello, world!".to_string()), Ok(()));
    assert_eq!(contents_of(&vec), ["Hello, world!"]);
}

#[test]
fn empty_handle_ignores_what_the_slots_hold() {
    let mut buf = [Slot::new(1u32), Slot::uninit()];
    let mut vec = empty_from_maybeuninit_slice(&mut buf);
    assert!(vec.is_empty());
    assert_eq!(vec.pop(), None);
    assert!(vec.get(0).is_none());
    assert_eq!(vec.push(9), Ok(()));
    assert_eq!(vec.get(0), Some(&9));
}

#[test]
fn handle_accepts_exactly_capacity_pushes() {
    let mut buf: [Slot<u64>; 5] = [Slot::uninit(), Slot::uninit(), Slot::uninit(), Slot::uninit(), Slot::uninit()];
    let mut vec = empty_from_maybeuninit_slice(&mut buf);
    for i in 0..5u64 {
        assert_eq!(vec.push(10 * i), Ok(()));
        assert_eq!(vec.len() as u64, i + 1);
        assert_eq!(vec.capacity(), 5);
    }
    assert_eq!(vec.push(50), Err(TryReserveError::AllocError));
    assert_eq!(vec.push(60), Err(TryReserveError::AllocError));
    assert_eq!(vec.len(), 5);
    assert_eq!(vec.capacity(), 5);
    for i in 0..5usize {
        assert_eq!(vec.get(i), Some(&(10 * i as u64)));
    }
}

#[test]
fn handle_over_no_slots_refuses_every_push() {
    let mut buf: [Slot<u8>; 0] = [];
    let mut vec = empty_from_maybeuninit_slice(&mut buf);
    assert_eq!(vec.capacity(), 0);
    assert_eq!(vec.push(1), Err(TryReserveError::AllocError));
    assert_eq!(vec.pop(), None);
    assert!(vec.is_empty());
}

#[test]
fn values_without_size_overflow_rather_than_allocate() {
    let mut buf: [Slot<()>; 2] = [Slot::uninit(), Slot::uninit()];
    let mut vec = empty_from_maybeuninit_slice(&mut buf);
    assert_eq!(vec.push(()), Ok(()));
    assert_eq!(vec.push(()), Ok(()));
    assert_eq!(vec.push(()), Err(TryReserveError::CapacityOverflow));
    assert_eq!(vec.len(), 2);
}

#[test]
fn handle_reports_given_length_and_capacity() {
    let mut buf = [Slot::new(1i32), Slot::new(2), Slot::new(3), Slot::uninit(), Slot::uninit(), Slot::uninit()];
    let vec = from_maybeuninit_slice(&mut buf, 3);
    assert_eq!(vec.len(), 3);
    assert_eq!(vec.capacity(), 6);
    assert_eq!(vec.get(0), Some(&1));
    assert_eq!(vec.get(1), Some(&2));
    assert_eq!(vec.get(2), Some(&3));
    assert_eq!(vec.get(3), None);
}

#[test]
fn handle_can_be_drained_and_refilled_to_capacity() {
    let mut buf = [Slot::new(1i32), Slot::new(2), Slot::new(3), Slot::uninit()];
    let mut vec = from_maybeuninit_slice(&mut buf, 3);
    assert_eq!(vec.pop(), Some(3));
    assert_eq!(vec.pop(), Some(2));
    assert_eq!(vec.pop(), Some(1));
    assert_eq!(vec.pop(), None);
    assert!(vec.is_empty());
    assert_eq!(vec.capacity(), 4);
    for i in 0..4 {
        assert_eq!(vec.push(100 + i), Ok(()));
    }
    assert_eq!(vec.len(), 4);
    assert_eq!(vec.capacity(), 4);
    assert_eq!(vec.push(104), Err(TryReserveError::AllocError));
    assert_eq!(vec.get(3), Some(&103));
}

#[test]
fn handle_with_length_zero_over_initialized_slots_leaves_them() {
    let mut buf = [Slot::new(5u8), Slot::new(6)];
    let vec = from_maybeuninit_slice(&mut buf, 0);
    assert!(vec.is_empty());
    assert_eq!(vec.capacity(), 2);
    vec.destroy();
    assert_eq!(buf[0].get(), Some(&5));
    assert_eq!(buf[1].get(), Some(&6));
}

#[test]
fn try_reserve_within_capacity_succeeds() {
    let mut buf = [Slot::new(1u16), Slot::uninit(), Slot::uninit()];
    let vec = from_maybeuninit_slice(&mut buf, 1);
    assert_eq!(vec.try_reserve(0), Ok(()));
    assert_eq!(vec.try_reserve(1), Ok(()));
    assert_eq!(vec.try_reserve(2), Ok(()));
    assert_eq!(vec.len(), 1);
    assert_eq!(vec.capacity(), 3);
}

#[test]
fn try_reserve_beyond_capacity_is_refused() {
    let mut buf = [Slot::new(1u16), Slot::uninit(), Slot::uninit()];
    let vec = from_maybeuninit_slice(&mut buf, 1);
    assert_eq!(vec.try_reserve(3), Err(TryReserveError::AllocError));
    assert_eq!(vec.try_reserve(1000), Err(TryReserveError::AllocError));
    assert_eq!(vec.len(), 1);
    assert_eq!(vec.capacity(), 3);
}

#[test]
fn try_reserve_beyond_the_address_space_overflows() {
    let mut buf = [Slot::new(1u16), Slot::uninit()];
    let vec = from_maybeuninit_slice(&mut buf, 1);
    assert_eq!(vec.try_reserve(usize::MAX), Err(TryReserveError::CapacityOverflow));
    assert_eq!(vec.try_reserve(usize::MAX - 1), Err(TryReserveError::CapacityOverflow));
    assert_eq!(vec.try_reserve(isize::MAX as usize / 2), Err(TryReserveError::CapacityOverflow));
    assert_eq!(vec.try_reserve(isize::MAX as usize / 2 - 1), Err(TryReserveError::AllocError));
}

#[test]
fn get_mut_changes_one_value() {
    let mut buf = [Slot::new("a".to_string()), Slot::new("b".to_string()), Slot::uninit()];
    let mut vec = from_maybeuninit_slice(&mut buf, 2);
    vec.get_mut(1).unwrap().push('!');
    assert!(vec.get_mut(2).is_none());
    assert_eq!(contents_of(&vec), ["a", "b!"]);
}

#[test]
fn truncate_keeps_the_first_values() {
    let mut buf = [Slot::new(1u8), Slot::new(2), Slot::new(3), Slot::new(4)];
    let mut vec = from_maybeuninit_slice(&mut buf, 4);
    vec.truncate(6);
    assert_eq!(vec.len(), 4);
    vec.truncate(4);
    assert_eq!(vec.len(), 4);
    vec.truncate(2);
    assert_eq!(vec.len(), 2);
    assert_eq!(vec.capacity(), 4);
    assert_eq!(vec.get(0), Some(&1));
    assert_eq!(vec.get(1), Some(&2));
    assert_eq!(vec.get(2), None);
    assert_eq!(vec.push(9), Ok(()));
    assert_eq!(vec.get(2), Some(&9));
    assert_eq!(vec.len(), 3);
}

#[test]
fn truncate_destroys_what_it_removes() {
    let drops = Rc::new(Cell::new(0));
    let mut buf = [
        Slot::new(Marked { drops: drops.clone(), mark: 0 }),
        Slot::new(Marked { drops: drops.clone(), mark: 1 }),
        Slot::new(Marked { drops: drops.clone(), mark: 2 }),
    ];
    let mut vec = from_maybeuninit_slice(&mut buf, 3);
    vec.truncate(1);
    assert_eq!(drops.get(), 2);
    assert_eq!(vec.get(0).map(|m| m.mark), Some(0));
    vec.clear();
    assert_eq!(drops.get(), 3);
    assert!(vec.is_empty());
    assert_eq!(vec.capacity(), 3);
}

#[test]
fn destroy_destroys_owned_values_and_spares_the_rest() {
    let drops = Rc::new(Cell::new(0));
    let mut buf = [
        Slot::new(Marked { drops: drops.clone(), mark: 0 }),
        Slot::new(Marked { drops: drops.clone(), mark: 1 }),
        Slot::new(Marked { drops: drops.clone(), mark: 2 }),
    ];
    let vec = from_maybeuninit_slice(&mut buf, 2);
    vec.destroy();
    assert_eq!(drops.get(), 2);
    assert!(!buf[0].is_init());
    assert!(!buf[1].is_init());
    assert_eq!(buf[2].get().map(|m| m.mark), Some(2));
}

#[test]
fn refused_push_leaves_the_handle_as_it_was() {
    let drops = Rc::new(Cell::new(0));
    let mut buf: Slot<Marked> = Slot::uninit();
    let mut vec = empty_from_maybeuninit(&mut buf);
    assert_eq!(vec.push(Marked { drops: drops.clone(), mark: 1 }), Ok(()));
    assert_eq!(
        vec.push(Marked { drops: drops.clone(), mark: 2 }),
        Err(TryReserveError::AllocError)
    );
    assert_eq!(drops.get(), 1);
    assert_eq!(vec.len(), 1);
    assert_eq!(vec.get(0).map(|m| m.mark), Some(1));
}

#[test]
fn dropping_the_handle_destroys_owned_values_and_spares_the_rest() {
    let drops = Rc::new(Cell::new(0));
    let mut buf = [
        Slot::new(Marked { drops: drops.clone(), mark: 0 }),
        Slot::new(Marked { drops: drops.clone(), mark: 1 }),
        Slot::new(Marked { drops: drops.clone(), mark: 2 }),
    ];
    {
        let mut vec = from_maybeuninit_slice(&mut buf, 2);
        assert_eq!(vec.pop().map(|m| m.mark), Some(1));
        assert_eq!(drops.get(), 1);
        assert_eq!(vec.len(), 1);
    }
    assert_eq!(drops.get(), 2);
    assert!(!buf[0].is_init());
    assert!(!buf[1].is_init());
    assert_eq!(buf[2].get().map(|m| m.mark), Some(2));
    drop(buf);
    assert_eq!(drops.get(), 3);
}

#[test]
fn values_are_destroyed_first_to_last() {
    struct Noting<'a>(&'a std::cell::RefCell<Vec<u32>>, u32);
    impl Drop for Noting<'_> {
        fn drop(&mut self) {
            self.0.borrow_mut().push(self.1);
        }
    }
    let order = std::cell::RefCell::new(Vec::new());
    let mut buf = [Slot::new(Noting(&order, 0)), Slot::new(Noting(&order, 1)), Slot::new(Noting(&order, 2))];
    drop(from_maybeuninit_slice(&mut buf, 3));
    assert_eq!(*order.borrow(), [0, 1, 2]);
    order.borrow_mut().clear();
    let mut buf = [Slot::new(Noting(&order, 0)), Slot::new(Noting(&order, 1)), Slot::new(Noting(&order, 2))];
    let mut vec = from_maybeuninit_slice(&mut buf, 3);
    vec.truncate(1);
    assert_eq!(*order.borrow(), [1, 2]);
    vec.destroy();
    assert_eq!(*order.borrow(), [1, 2, 0]);
}

#[test]
fn popped_slot_is_free_again() {
    let mut buf: Slot<u32> = Slot::new(4);
    let mut vec = from_maybeuninit(&mut buf);
    assert_eq!(vec.push(5), Err(TryReserveError::AllocError));
    assert_eq!(vec.pop(), Some(4));
    assert_eq!(vec.push(5), Ok(()));
    assert_eq!(vec.pop(), Some(5));
    assert_eq!(vec.pop(), None);
    drop(vec);
    assert!(!buf.is_init());
}
