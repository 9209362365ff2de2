use noop_allocator::layout::{Layout, LayoutError};
use noop_allocator::memory::Address;

#[test]
fn from_size_align_keeps_size_and_alignment() {
    let layout = Layout::from_size_align(24, 8).unwrap();
    assert_eq!(layout.size(), 24);
    assert_eq!(layout.align(), 8);
}

#[test]
fn from_size_align_rejects_zero_alignment() {
    assert_eq!(Layout::from_size_align(8, 0), Err(LayoutError));
}

#[test]
fn from_size_align_rejects_alignment_that_is_no_power_of_two() {
    for align in [3usize, 5, 6, 7, 12, 24, 100, usize::MAX] {
        assert_eq!(Layout::from_size_align(8, align), Err(LayoutError));
    }
}

#[test]
fn from_size_align_accepts_every_power_of_two() {
    let mut align: usize = 1;
    loop {
        let layout = Layout::from_size_align(0, align).unwrap();
        assert_eq!(layout.align(), align);
        match align.checked_mul(2) {
            Some(next) => align = next,
            None => break,
        }
    }
}

#[test]
fn from_size_align_rejects_size_beyond_signed_range() {
    let max = isize::MAX as usize;
    assert!(Layout::from_size_align(max, 1).is_ok());
    assert_eq!(Layout::from_size_align(max + 1, 1), Err(LayoutError));
    assert!(Layout::from_size_align(max - 7, 8).is_ok());
    assert_eq!(Layout::from_size_align(max - 6, 8), Err(LayoutError));
    assert_eq!(Layout::from_size_align(usize::MAX, 1), Err(LayoutError));
}

#[test]
fn new_gives_the_layout_of_a_type() {
    let layout = Layout::new::<u64>();
    assert_eq!(layout.size(), 8);
    assert_eq!(layout.align(), core::mem::align_of::<u64>());
    let unit = Layout::new::<()>();
    assert_eq!(unit.size(), 0);
    assert_eq!(unit.align(), 1);
}

#[test]
fn array_multiplies_the_element_size() {
    let layout = Layout::array::<u32>(4).unwrap();
    assert_eq!(layout.size(), 16);
    assert_eq!(layout.align(), core::mem::align_of::<u32>());
    let none = Layout::array::<u32>(0).unwrap();
    assert_eq!(none.size(), 0);
    let units = Layout::array::<()>(usize::MAX).unwrap();
    assert_eq!(units.size(), 0);
}

#[test]
fn array_rejects_what_does_not_fit() {
    assert_eq!(Layout::array::<u32>(usize::MAX), Err(LayoutError));
    assert_eq!(Layout::array::<u32>(isize::MAX as usize / 4 + 1), Err(LayoutError));
    assert!(Layout::array::<u8>(isize::MAX as usize).is_ok());
    assert_eq!(Layout::array::<u8>(isize::MAX as usize + 1), Err(LayoutError));
}

#[test]
fn dangling_is_the_alignment() {
    for align in [1usize, 2, 8, 256] {
        let layout = Layout::from_size_align(40 * align, align).unwrap();
        let ptr = layout.dangling();
        assert_eq!(ptr.addr(), align);
        assert!(ptr.is_aligned_for(layout));
    }
}

#[test]
fn address_is_never_zero() {
    assert_eq!(Address::new(0), None);
    assert_eq!(Address::new(1).unwrap().addr(), 1);
    assert_eq!(Address::new(usize::MAX).unwrap().addr(), usize::MAX);
}

#[test]
fn is_aligned_for_tests_the_remainder() {
    for addr in 1usize..70 {
        for align in [1usize, 2, 4, 8, 16, 32, 64] {
            let layout = Layout::from_size_align(0, align).unwrap();
            assert_eq!(Address::new(addr).unwrap().is_aligned_for(layout), addr % align == 0);
        }
    }
}
