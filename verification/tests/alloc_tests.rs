use nextstep_rt::allocator::alloc_error;
use nextstep_rt::allocator::round_up_to_page;
use nextstep_rt::allocator::MachAllocator;
use nextstep_rt::atomics::SoftwareAtomicUnit;
use nextstep_rt::kernel::Kernel;
use nextstep_rt::kernel::PAGE_SIZE;

#[test]
fn test_basic_alloc() {
    let mut k = Kernel::new();
    let mut mem = SoftwareAtomicUnit::new();
    let allocator = MachAllocator;
    let ptr = allocator.allocate(&mut k, 64, 8);
    assert!(ptr != 0);

    // Write some data
    mem.__atomic_store_1(ptr, 42, 0);
    assert_eq!(mem.__atomic_load_1(ptr, 0), 42);

    allocator.dealloc(&mut k, ptr, 64, 8);
}

#[test]
fn test_large_alloc() {
    let mut k = Kernel::new();
    let allocator = MachAllocator;
    let ptr = allocator.allocate(&mut k, 16384, 8);
    assert!(ptr != 0);

    allocator.dealloc(&mut k, ptr, 16384, 8);
}

#[test]
fn rounding_is_page_ceiling() {
    assert_eq!(round_up_to_page(1), 4096);
    assert_eq!(round_up_to_page(4095), 4096);
    assert_eq!(round_up_to_page(4096), 4096);
    assert_eq!(round_up_to_page(4097), 8192);
    assert_eq!(round_up_to_page(16384), 16384);
    assert_eq!(round_up_to_page(0), 0);
}

#[test]
fn small_allocation_is_page_aligned_and_writable() {
    let mut k = Kernel::new();
    let mut mem = SoftwareAtomicUnit::new();
    let allocator = MachAllocator;
    for size in [1usize, 7, 100, 4095, 4096] {
        let a = allocator.allocate(&mut k, size, 1);
        assert!(a != 0);
        assert_eq!(a % PAGE_SIZE, 0);
        // every byte of the page behind the address accepts a store
        mem.__atomic_store_1(a, 0xAB, 0);
        mem.__atomic_store_1(a + PAGE_SIZE - 1, 0xCD, 0);
        assert_eq!(mem.__atomic_load_1(a, 0), 0xAB);
        assert_eq!(mem.__atomic_load_1(a + PAGE_SIZE - 1, 0), 0xCD);
    }
}

#[test]
fn allocation_respects_requested_alignment() {
    let mut k = Kernel::new();
    let allocator = MachAllocator;
    for align in [1usize, 2, 4, 8, 16, 256, 4096] {
        let a = allocator.allocate(&mut k, 32, align);
        assert!(a != 0);
        assert_eq!(a % align, 0);
    }
}

#[test]
fn exact_region_sizes() {
    // a request of 16384 bytes on a 4096-byte-page target maps exactly
    // 16384 bytes; a request of 1 byte maps exactly 4096
    let mut k = Kernel::new();
    let allocator = MachAllocator;
    let a = allocator.allocate(&mut k, 16384, 8);
    assert!(a != 0);
    assert_eq!(k.regions.len(), 1);
    assert_eq!(k.regions[0].base, a);
    assert_eq!(k.regions[0].len, 16384);

    let b = allocator.allocate(&mut k, 1, 8);
    assert!(b != 0);
    assert_eq!(k.regions.len(), 2);
    assert_eq!(k.regions[1].base, b);
    assert_eq!(k.regions[1].len, 4096);
}

#[test]
fn allocate_then_deallocate_unmaps_the_region() {
    let mut k = Kernel::new();
    let allocator = MachAllocator;
    let a = allocator.allocate(&mut k, 5000, 8);
    assert!(a != 0);
    assert_eq!(k.regions.len(), 1);
    // releasing with the same original size rounds identically and the
    // kernel finds the exact region
    allocator.dealloc(&mut k, a, 5000, 8);
    assert_eq!(k.regions.len(), 0);
}

#[test]
fn deallocate_with_wrong_size_is_swallowed() {
    let mut k = Kernel::new();
    let allocator = MachAllocator;
    let a = allocator.allocate(&mut k, 5000, 8);
    assert!(a != 0);
    // 5000 rounds to 8192; 100 rounds to 4096, naming no mapped region,
    // and the failure is not reported
    allocator.dealloc(&mut k, a, 100, 8);
    assert_eq!(k.regions.len(), 1);
}

#[test]
fn zeroed_allocation_reads_zero() {
    let mut k = Kernel::new();
    let mut mem = SoftwareAtomicUnit::new();
    let allocator = MachAllocator;
    let a = allocator.alloc_zeroed(&mut k, 64, 8);
    assert!(a != 0);
    assert_eq!(mem.__atomic_load_4(a, 0), 0);
    assert_eq!(mem.__atomic_load_1(a + 63, 0), 0);
}

#[test]
fn zero_size_request_returns_null() {
    let mut k = Kernel::new();
    let allocator = MachAllocator;
    assert_eq!(allocator.allocate(&mut k, 0, 1), 0);
    assert_eq!(k.regions.len(), 0);
}

#[test]
fn allocation_failure_returns_null_and_only_the_handler_terminates() {
    let mut k = Kernel::new();
    let allocator = MachAllocator;
    k.set_vm_failure(true);
    // the failing allocation returns the null sentinel and does not
    // terminate the process
    let a = allocator.allocate(&mut k, 64, 8);
    assert_eq!(a, 0);
    assert_eq!(k.exit_status, None);
    assert_eq!(k.regions.len(), 0);
    // the allocation-error handler terminates unconditionally, after
    // writing its fixed diagnostic to the error stream
    alloc_error(&mut k);
    assert_eq!(k.exit_status, Some(1));
    assert_eq!(k.stderr_data, b"memory allocation failed\n".to_vec());
}

#[test]
fn the_handler_terminates_even_when_the_diagnostic_is_cut_short() {
    let mut k = Kernel::new();
    k.set_write_cap(6);
    alloc_error(&mut k);
    assert_eq!(k.exit_status, Some(1));
    assert_eq!(k.stderr_data, b"memory".to_vec());
}
