use nextstep_rt::atomics::addr_to_lock_idx;
use nextstep_rt::atomics::SoftwareAtomicUnit;

#[test]
fn test_atomic_load_store() {
    let mut mem = SoftwareAtomicUnit::new();
    let addr: usize = 0x1000;
    mem.__atomic_store_4(addr, 42, 0);
    assert_eq!(mem.__atomic_load_4(addr, 0), 42);
}

#[test]
fn test_compare_and_swap() {
    let mut mem = SoftwareAtomicUnit::new();
    let addr: usize = 0x1000;
    mem.__atomic_store_4(addr, 10, 0);
    let old = mem.__sync_val_compare_and_swap_4(addr, 10, 20);
    assert_eq!(old, 10);
    assert_eq!(mem.__atomic_load_4(addr, 0), 20);

    let old = mem.__sync_val_compare_and_swap_4(addr, 10, 30);
    assert_eq!(old, 20);
    assert_eq!(mem.__atomic_load_4(addr, 0), 20); // No change
}

#[test]
fn test_fetch_and_add() {
    let mut mem = SoftwareAtomicUnit::new();
    let counter: usize = 0x2000;
    assert_eq!(mem.__sync_fetch_and_add_4(counter, 1), 0);
    assert_eq!(mem.__sync_fetch_and_add_4(counter, 1), 1);
    assert_eq!(mem.__sync_fetch_and_add_4(counter, 1), 2);
    assert_eq!(mem.__atomic_load_4(counter, 0), 3);
}

#[test]
fn store_load_round_trip_every_width() {
    let mut mem = SoftwareAtomicUnit::new();
    mem.__atomic_store_1(0x10, 0xAB, 0);
    assert_eq!(mem.__atomic_load_1(0x10, 0), 0xAB);
    mem.__atomic_store_2(0x20, 0xBEEF, 0);
    assert_eq!(mem.__atomic_load_2(0x20, 0), 0xBEEF);
    mem.__atomic_store_4(0x30, 0xDEAD_BEEF, 0);
    assert_eq!(mem.__atomic_load_4(0x30, 0), 0xDEAD_BEEF);
}

#[test]
fn unwritten_memory_reads_zero() {
    let mut mem = SoftwareAtomicUnit::new();
    assert_eq!(mem.__atomic_load_1(0x7777, 0), 0);
    assert_eq!(mem.__atomic_load_2(0x7777, 0), 0);
    assert_eq!(mem.__atomic_load_4(0x7777, 0), 0);
}

#[test]
fn words_are_stored_big_endian() {
    let mut mem = SoftwareAtomicUnit::new();
    mem.__atomic_store_4(0x40, 0x1122_3344, 0);
    assert_eq!(mem.__atomic_load_1(0x40, 0), 0x11);
    assert_eq!(mem.__atomic_load_1(0x41, 0), 0x22);
    assert_eq!(mem.__atomic_load_1(0x42, 0), 0x33);
    assert_eq!(mem.__atomic_load_1(0x43, 0), 0x44);
    assert_eq!(mem.__atomic_load_2(0x40, 0), 0x1122);
    assert_eq!(mem.__atomic_load_2(0x42, 0), 0x3344);
}

#[test]
fn exchange_returns_previous_value() {
    let mut mem = SoftwareAtomicUnit::new();
    mem.__atomic_store_2(0x50, 7, 0);
    assert_eq!(mem.__atomic_exchange_2(0x50, 9, 0), 7);
    assert_eq!(mem.__atomic_load_2(0x50, 0), 9);
    assert_eq!(mem.__atomic_exchange_1(0x60, 5, 0), 0);
    assert_eq!(mem.__atomic_load_1(0x60, 0), 5);
    assert_eq!(mem.__atomic_exchange_4(0x70, 0xFFFF_FFFF, 0), 0);
    assert_eq!(mem.__atomic_load_4(0x70, 0), 0xFFFF_FFFF);
}

#[test]
fn bool_compare_and_swap_reports_success() {
    let mut mem = SoftwareAtomicUnit::new();
    mem.__atomic_store_4(0x80, 10, 0);
    assert!(mem.__sync_bool_compare_and_swap_4(0x80, 10, 20));
    assert_eq!(mem.__atomic_load_4(0x80, 0), 20);
    assert!(!mem.__sync_bool_compare_and_swap_4(0x80, 10, 30));
    assert_eq!(mem.__atomic_load_4(0x80, 0), 20);
    assert!(mem.__sync_bool_compare_and_swap_1(0x90, 0, 1));
    assert!(mem.__sync_bool_compare_and_swap_2(0xA0, 0, 1));
}

#[test]
fn fetch_and_add_wraps_at_the_word_width() {
    let mut mem = SoftwareAtomicUnit::new();
    mem.__atomic_store_1(0xB0, 0xFF, 0);
    assert_eq!(mem.__sync_fetch_and_add_1(0xB0, 2), 0xFF);
    assert_eq!(mem.__atomic_load_1(0xB0, 0), 1);

    mem.__atomic_store_2(0xC0, 0xFFFF, 0);
    assert_eq!(mem.__sync_fetch_and_add_2(0xC0, 3), 0xFFFF);
    assert_eq!(mem.__atomic_load_2(0xC0, 0), 2);

    mem.__atomic_store_4(0xD0, 0xFFFF_FFFF, 0);
    assert_eq!(mem.__sync_fetch_and_add_4(0xD0, 5), 0xFFFF_FFFF);
    assert_eq!(mem.__atomic_load_4(0xD0, 0), 4);
}

#[test]
fn counter_scenario_thirty_increments() {
    // three logical callers, ten sequential increments each, taken in
    // round-robin order: the previous values are exactly 0..29 and the
    // final count is 30
    let mut mem = SoftwareAtomicUnit::new();
    let counter: usize = 0x3000;
    mem.__atomic_store_4(counter, 0, 0);
    let mut seen: Vec<u32> = Vec::new();
    for _round in 0..10 {
        for _caller in 0..3 {
            seen.push(mem.__sync_fetch_and_add_4(counter, 1));
        }
    }
    assert_eq!(mem.__atomic_load_4(counter, 0), 30);
    seen.sort();
    let expected: Vec<u32> = (0..30).collect();
    assert_eq!(seen, expected);
}

#[test]
fn addresses_hash_to_stable_stripes() {
    let a: usize = 0x100;
    assert_eq!(addr_to_lock_idx(a), addr_to_lock_idx(a));
    assert!(addr_to_lock_idx(a) < 64);
    assert!(addr_to_lock_idx(0xFFFF_FFFF) < 64);
}

#[test]
fn colliding_stripes_do_not_mix_values() {
    // 0x100 and 0x500 differ by 1024 = 64 * 16, so they hash to the
    // same stripe, yet each keeps its own word
    let a1: usize = 0x100;
    let a2: usize = 0x500;
    assert_eq!(addr_to_lock_idx(a1), addr_to_lock_idx(a2));
    let mut mem = SoftwareAtomicUnit::new();
    mem.__atomic_store_4(a1, 0xAAAA_0001, 0);
    mem.__atomic_store_4(a2, 0xBBBB_0002, 0);
    assert_eq!(mem.__atomic_load_4(a1, 0), 0xAAAA_0001);
    assert_eq!(mem.__atomic_load_4(a2, 0), 0xBBBB_0002);
    mem.__sync_fetch_and_add_4(a2, 1);
    assert_eq!(mem.__atomic_load_4(a1, 0), 0xAAAA_0001);
    assert_eq!(mem.__atomic_load_4(a2, 0), 0xBBBB_0003);
}

#[test]
fn fetch_and_add_accumulates_across_unrelated_traffic() {
    // adding 5 and then 7 accumulates to 12 even with a store to a word
    // on a different stripe interleaved between the two
    let a: usize = 0x100;
    let b: usize = 0x200;
    assert_ne!(addr_to_lock_idx(a), addr_to_lock_idx(b));
    let mut mem = SoftwareAtomicUnit::new();
    mem.__atomic_store_4(a, 1000, 0);
    mem.__sync_fetch_and_add_4(a, 5);
    mem.__atomic_store_4(b, 0xFFFF_FFFF, 0);
    mem.__sync_fetch_and_add_4(a, 7);
    assert_eq!(mem.__atomic_load_4(a, 0), 1012);
}

#[test]
fn fence_leaves_memory_unchanged() {
    let mut mem = SoftwareAtomicUnit::new();
    mem.__atomic_store_4(0x4000, 77, 0);
    mem.__sync_synchronize();
    assert_eq!(mem.__atomic_load_4(0x4000, 0), 77);
}
