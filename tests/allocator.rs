use lpc55_usbhs::{EndpointMemoryAllocator, UsbError, EP_MEM_SIZE, EP_REGISTERS_SIZE};

fn offset_of(a: &mut EndpointMemoryAllocator, size: usize) -> Result<usize, UsbError> {
    a.allocate_buffer(size).map(|b| b.offset())
}

#[test]
fn allocation_offsets_round_up_to_64() {
    let mut a = EndpointMemoryAllocator::new();
    // The descriptor table takes 96 bytes, so the first buffer starts at 128.
    assert_eq!(EP_REGISTERS_SIZE, 96);
    assert_eq!(offset_of(&mut a, 8), Ok(128));
    assert_eq!(offset_of(&mut a, 16), Ok(192));
    assert_eq!(offset_of(&mut a, 8), Ok(256));
}

#[test]
fn allocated_buffer_has_requested_capacity() {
    let mut a = EndpointMemoryAllocator::new();
    let b = a.allocate_buffer(64).unwrap_or_else(|_| panic!("allocation failed"));
    assert_eq!(b.capacity(), 64);
    assert!(!b.is_empty());
}

#[test]
fn overflow_leaves_allocator_unchanged() {
    let mut a = EndpointMemoryAllocator::new();
    assert_eq!(offset_of(&mut a, EP_MEM_SIZE), Err(UsbError::EndpointMemoryOverflow));
    assert_eq!(offset_of(&mut a, usize::MAX), Err(UsbError::EndpointMemoryOverflow));
    assert_eq!(offset_of(&mut a, 8), Ok(128));
}

#[test]
fn exact_fit_then_overflow() {
    let mut a = EndpointMemoryAllocator::new();
    assert_eq!(offset_of(&mut a, EP_MEM_SIZE - 128), Ok(128));
    assert_eq!(offset_of(&mut a, 0), Ok(EP_MEM_SIZE));
    assert_eq!(offset_of(&mut a, 1), Err(UsbError::EndpointMemoryOverflow));
}

#[test]
fn sequence_of_allocations_is_aligned_and_disjoint() {
    let mut a = EndpointMemoryAllocator::new();
    let sizes = [1usize, 64, 65, 0, 200, 3, 1000, 7000, 9000, 10];
    let mut regions: Vec<(usize, usize)> = Vec::new();
    let mut failures = 0;
    for &s in sizes.iter() {
        match offset_of(&mut a, s) {
            Ok(o) => {
                assert_eq!(o % 64, 0);
                assert!(o >= EP_REGISTERS_SIZE);
                assert!(o + s <= EP_MEM_SIZE);
                for &(p, ps) in regions.iter() {
                    assert!(p + ps <= o);
                }
                regions.push((o, s));
            }
            Err(e) => {
                assert_eq!(e, UsbError::EndpointMemoryOverflow);
                failures += 1;
            }
        }
    }
    // 9000 bytes no longer fit after the 7000-byte buffer; 10 still does.
    assert_eq!(failures, 1);
    assert_eq!(regions.len(), sizes.len() - 1);
}

#[test]
fn default_matches_new() {
    let mut a = EndpointMemoryAllocator::default();
    assert_eq!(offset_of(&mut a, 8), Ok(128));
}
