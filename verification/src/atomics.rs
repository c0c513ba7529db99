//! Software-emulated atomic operations for a processor without a
//! compare-and-swap instruction: load, store, exchange,
//! compare-and-swap, fetch-and-add and a full fence, for 1-, 2- and
//! 4-byte words, under the fixed symbol names a code generator lowers
//! atomic intrinsics to.
//!
//! Every operation hashes the target address to one stripe of a fixed
//! table of spinlocks, performs the whole read-modify-write inside that
//! stripe's critical section, and releases the stripe before returning.
//! Memory is modeled byte by byte, so the contracts state structurally
//! that no torn access is ever observable: an operation writes exactly
//! the bytes of its word — big-endian, as the target stores words — and
//! nothing else.

use std::collections::HashMap;

use vstd::prelude::*;

verus! {

broadcast use vstd::std_specs::hash::group_hash_axioms;

/// The number of stripe locks; a power of two.
pub const SPINLOCK_COUNT: usize = 64;

/// The mask that reduces an address hash to a stripe index.
pub const SPINLOCK_MASK: usize = 64 - 1;

/// The stripe an address hashes to: the address bits above the natural
/// alignment boundary, masked to the table size. Deterministic, so one
/// address always selects the same stripe; unrelated addresses may
/// collide onto one stripe (false sharing, traded for table
/// simplicity).
pub open spec fn stripe_of(addr: usize) -> usize {
    (addr >> 4) & 63
}

/// Every address hashes to a stripe inside the table.
pub proof fn lemma_stripe_in_range(addr: usize)
    ensures
        stripe_of(addr) < 64,
{
    assert((addr >> 4) & 63 < 64) by (bit_vector);
}

/// The byte the modeled memory holds at `a`; memory starts
/// zero-initialized, so addresses never written read zero.
pub open spec fn byte_at(m: Map<usize, u8>, a: usize) -> u8 {
    if m.contains_key(a) {
        m[a]
    } else {
        0
    }
}

/// The 2-byte word at `a`, big-endian.
pub open spec fn word2_at(m: Map<usize, u8>, a: usize) -> u16 {
    (byte_at(m, a) as int * 0x100 + byte_at(m, (a + 1) as usize) as int) as u16
}

/// The 4-byte word at `a`: its two big-endian halves.
pub open spec fn word4_at(m: Map<usize, u8>, a: usize) -> u32 {
    (word2_at(m, a) as int * 0x10000 + word2_at(m, (a + 2) as usize) as int) as u32
}

/// Memory after storing one byte at `a`.
pub open spec fn store1_spec(m: Map<usize, u8>, a: usize, v: u8) -> Map<usize, u8> {
    m.insert(a, v)
}

/// Memory after storing a 2-byte word at `a`, big-endian.
pub open spec fn store2_spec(m: Map<usize, u8>, a: usize, v: u16) -> Map<usize, u8> {
    m.insert(a, (v as int / 0x100) as u8).insert((a + 1) as usize, (v as int % 0x100) as u8)
}

/// Memory after storing a 4-byte word at `a`: its two halves.
pub open spec fn store4_spec(m: Map<usize, u8>, a: usize, v: u32) -> Map<usize, u8> {
    store2_spec(
        store2_spec(m, a, (v as int / 0x10000) as u16),
        (a + 2) as usize,
        (v as int % 0x10000) as u16,
    )
}

/// Addition wrapped to one byte.
pub open spec fn wrap_add1(a: u8, b: u8) -> u8 {
    ((a + b) % 0x100) as u8
}

/// Addition wrapped to a 2-byte word.
pub open spec fn wrap_add2(a: u16, b: u16) -> u16 {
    ((a + b) % 0x10000) as u16
}

/// Addition wrapped to a 4-byte word.
pub open spec fn wrap_add4(a: u32, b: u32) -> u32 {
    ((a + b) % 0x1_0000_0000) as u32
}

/// A 2-byte store writes exactly the two bytes of its word and nothing
/// else.
pub proof fn lemma_store2_bytes(m: Map<usize, u8>, a: usize, v: u16)
    requires
        a + 1 <= usize::MAX,
    ensures
        byte_at(store2_spec(m, a, v), a) == (v as int / 0x100) as u8,
        byte_at(store2_spec(m, a, v), (a + 1) as usize) == (v as int % 0x100) as u8,
        forall|j: usize|
            j < a || j > a + 1 ==> #[trigger] byte_at(store2_spec(m, a, v), j) == byte_at(m, j),
{
}

/// A 4-byte store writes exactly the four bytes of its word and nothing
/// else.
pub proof fn lemma_store4_bytes(m: Map<usize, u8>, a: usize, v: u32)
    requires
        a + 3 <= usize::MAX,
    ensures
        forall|j: usize|
            j < a || j > a + 3 ==> #[trigger] byte_at(store4_spec(m, a, v), j) == byte_at(m, j),
{
    let hi = (v as int / 0x10000) as u16;
    let lo = (v as int % 0x10000) as u16;
    lemma_store2_bytes(m, a, hi);
    lemma_store2_bytes(store2_spec(m, a, hi), (a + 2) as usize, lo);
}

/// Round trip at width 1: a store immediately followed by a load of the
/// same address, with no intervening writer, returns the stored value.
pub proof fn lemma_store_load_round_trip_1(m: Map<usize, u8>, a: usize, v: u8)
    ensures
        byte_at(store1_spec(m, a, v), a) == v,
{
}

/// Round trip at width 2: a store immediately followed by a load of the
/// same address, with no intervening writer, returns the stored value.
pub proof fn lemma_store_load_round_trip_2(m: Map<usize, u8>, a: usize, v: u16)
    requires
        a + 1 <= usize::MAX,
    ensures
        word2_at(store2_spec(m, a, v), a) == v,
{
    lemma_store2_bytes(m, a, v);
    vstd::arithmetic::div_mod::lemma_fundamental_div_mod(v as int, 0x100);
    vstd::arithmetic::div_mod::lemma_mod_bound(v as int, 0x100);
    assert(v as int / 0x100 <= 0xff);
}

/// Round trip at width 4: a store immediately followed by a load of the
/// same address, with no intervening writer, returns the stored value.
pub proof fn lemma_store_load_round_trip_4(m: Map<usize, u8>, a: usize, v: u32)
    requires
        a + 3 <= usize::MAX,
    ensures
        word4_at(store4_spec(m, a, v), a) == v,
{
    let hi = (v as int / 0x10000) as u16;
    let lo = (v as int % 0x10000) as u16;
    let m1 = store2_spec(m, a, hi);
    let m2 = store2_spec(m1, (a + 2) as usize, lo);
    lemma_store_load_round_trip_2(m, a, hi);
    lemma_store_load_round_trip_2(m1, (a + 2) as usize, lo);
    lemma_store2_bytes(m1, (a + 2) as usize, lo);
    assert(byte_at(m2, a) == byte_at(m1, a));
    assert(byte_at(m2, (a + 1) as usize) == byte_at(m1, (a + 1) as usize));
    assert(word2_at(m2, a) == word2_at(m1, a));
    vstd::arithmetic::div_mod::lemma_fundamental_div_mod(v as int, 0x10000);
    vstd::arithmetic::div_mod::lemma_mod_bound(v as int, 0x10000);
    assert(v as int / 0x10000 <= 0xffff);
}

/// The software atomic unit: the fixed table of striped spinlocks,
/// together with the byte-addressed memory the operations act on. One
/// unit exists per process, initialized once before any use.
pub struct SoftwareAtomicUnit {
    /// The stripe lock flags; a set flag means the stripe is held.
    pub locks: Vec<bool>,
    /// The modeled memory: one byte per address written so far;
    /// unwritten addresses hold zero.
    pub bytes: HashMap<usize, u8>,
}

impl SoftwareAtomicUnit {
    /// The memory contents.
    pub open spec fn mem(self) -> Map<usize, u8> {
        self.bytes@
    }

    /// The lock table has its fixed size.
    pub open spec fn wf(self) -> bool {
        self.locks@.len() == 64
    }

    /// All stripes are free: no operation is in flight. Holds between
    /// any two operations.
    pub open spec fn quiescent(self) -> bool {
        forall|i: int| 0 <= i < self.locks@.len() ==> !(#[trigger] self.locks@[i])
    }

    /// A fresh unit: all stripes free, memory all zero.
    pub fn new() -> (u: SoftwareAtomicUnit)
        ensures
            u.wf(),
            u.quiescent(),
            u.mem() == Map::<usize, u8>::empty(),
    {
        let mut locks: Vec<bool> = Vec::new();
        while locks.len() < 64
            invariant
                locks@.len() <= 64,
                forall|i: int| 0 <= i < locks@.len() ==> !(#[trigger] locks@[i]),
            decreases 64 - locks@.len(),
        {
            locks.push(false);
        }
        SoftwareAtomicUnit { locks, bytes: HashMap::new() }
    }

    /// Takes a stripe's lock by busy-waiting until the flag is clear
    /// and then setting it, with an acquire-ordered barrier in the real
    /// unit. In this single-core model every stripe is free between
    /// operations, so the wait ends at once.
    fn acquire_spinlock(&mut self, idx: usize)
        requires
            old(self).wf(),
            idx < 64,
            !old(self).locks@[idx as int],
        ensures
            final(self).wf(),
            final(self).locks@ == old(self).locks@.update(idx as int, true),
            final(self).bytes == old(self).bytes,
    {
        let ghost l0 = self.locks@;
        let ghost b0 = self.bytes;
        while self.locks[idx]
            invariant
                self.locks@ == l0,
                self.bytes == b0,
                idx < 64,
                l0.len() == 64,
                !l0[idx as int],
            decreases 0int,
        {
            // spin until the holder clears the flag; in this model the
            // flag is already clear, so the wait body is never entered
        }
        self.locks.set(idx, true);
    }

    /// Releases a stripe's lock: a release-ordered barrier in the real
    /// unit, then the flag is cleared.
    fn release_spinlock(&mut self, idx: usize)
        requires
            old(self).wf(),
            idx < 64,
        ensures
            final(self).wf(),
            final(self).locks@ == old(self).locks@.update(idx as int, false),
            final(self).bytes == old(self).bytes,
    {
        self.locks.set(idx, false);
    }

    /// Reads the byte at `a`; addresses never written read zero.
    fn mem_read(&self, a: usize) -> (r: u8)
        ensures
            r == byte_at(self.bytes@, a),
    {
        match self.bytes.get(&a) {
            Some(b) => *b,
            None => 0,
        }
    }

    /// Writes the byte at `a`.
    fn mem_write(&mut self, a: usize, v: u8)
        ensures
            final(self).bytes@ == old(self).bytes@.insert(a, v),
            final(self).locks == old(self).locks,
    {
        self.bytes.insert(a, v);
    }
}

/// Taking and then releasing one stripe of a quiescent table restores
/// the table exactly.
proof fn lemma_lock_round_trip(l0: Seq<bool>, idx: int)
    requires
        l0.len() == 64,
        0 <= idx < 64,
        forall|i: int| 0 <= i < l0.len() ==> !(#[trigger] l0[i]),
    ensures
        l0.update(idx, true).update(idx, false) == l0,
{
    assert(l0.update(idx, true).update(idx, false) =~= l0);
}

/// The stripe index for an address: the address bits above the natural
/// alignment boundary, masked to the table size.
pub fn addr_to_lock_idx(addr: usize) -> (r: usize)
    ensures
        r == stripe_of(addr),
        r < 64,
{
    proof {
        lemma_stripe_in_range(addr);
    }
    (addr >> 4) & SPINLOCK_MASK
}

impl SoftwareAtomicUnit {
    /// Atomic 1-byte load. The numeric ordering argument is accepted
    /// but not differentiated: the stripe lock already gives the
    /// strongest ordering.
    pub fn __atomic_load_1(&mut self, src: usize, _ordering: i32) -> (r: u8)
        requires
            old(self).wf(),
            old(self).quiescent(),
        ensures
            final(self).wf(),
            final(self).quiescent(),
            final(self).bytes@ == old(self).bytes@,
            r == byte_at(old(self).bytes@, src),
    {
        let idx = addr_to_lock_idx(src);
        self.acquire_spinlock(idx);
        let val = self.mem_read(src);
        self.release_spinlock(idx);
        proof {
            lemma_lock_round_trip(old(self).locks@, idx as int);
        }
        val
    }

    /// Atomic 2-byte load.
    pub fn __atomic_load_2(&mut self, src: usize, _ordering: i32) -> (r: u16)
        requires
            old(self).wf(),
            old(self).quiescent(),
            src + 1 <= usize::MAX,
        ensures
            final(self).wf(),
            final(self).quiescent(),
            final(self).bytes@ == old(self).bytes@,
            r == word2_at(old(self).bytes@, src),
    {
        let idx = addr_to_lock_idx(src);
        self.acquire_spinlock(idx);
        let b0 = self.mem_read(src);
        let b1 = self.mem_read(src + 1);
        self.release_spinlock(idx);
        proof {
            lemma_lock_round_trip(old(self).locks@, idx as int);
        }
        (b0 as u16) * 0x100 + (b1 as u16)
    }

    /// Atomic 4-byte load.
    pub fn __atomic_load_4(&mut self, src: usize, _ordering: i32) -> (r: u32)
        requires
            old(self).wf(),
            old(self).quiescent(),
            src + 3 <= usize::MAX,
        ensures
            final(self).wf(),
            final(self).quiescent(),
            final(self).bytes@ == old(self).bytes@,
            r == word4_at(old(self).bytes@, src),
    {
        let idx = addr_to_lock_idx(src);
        self.acquire_spinlock(idx);
        let b0 = self.mem_read(src);
        let b1 = self.mem_read(src + 1);
        let b2 = self.mem_read(src + 2);
        let b3 = self.mem_read(src + 3);
        self.release_spinlock(idx);
        proof {
            lemma_lock_round_trip(old(self).locks@, idx as int);
        }
        let hi = (b0 as u16) * 0x100 + (b1 as u16);
        let lo = (b2 as u16) * 0x100 + (b3 as u16);
        (hi as u32) * 0x10000 + (lo as u32)
    }

    /// Atomic 1-byte store.
    pub fn __atomic_store_1(&mut self, dst: usize, val: u8, _ordering: i32)
        requires
            old(self).wf(),
            old(self).quiescent(),
        ensures
            final(self).wf(),
            final(self).quiescent(),
            final(self).bytes@ == store1_spec(old(self).bytes@, dst, val),
    {
        let idx = addr_to_lock_idx(dst);
        self.acquire_spinlock(idx);
        self.mem_write(dst, val);
        self.release_spinlock(idx);
        proof {
            lemma_lock_round_trip(old(self).locks@, idx as int);
        }
    }

    /// Atomic 2-byte store.
    pub fn __atomic_store_2(&mut self, dst: usize, val: u16, _ordering: i32)
        requires
            old(self).wf(),
            old(self).quiescent(),
            dst + 1 <= usize::MAX,
        ensures
            final(self).wf(),
            final(self).quiescent(),
            final(self).bytes@ == store2_spec(old(self).bytes@, dst, val),
    {
        let idx = addr_to_lock_idx(dst);
        self.acquire_spinlock(idx);
        self.mem_write(dst, (val / 0x100) as u8);
        self.mem_write(dst + 1, (val % 0x100) as u8);
        self.release_spinlock(idx);
        proof {
            lemma_lock_round_trip(old(self).locks@, idx as int);
        }
    }

    /// Atomic 4-byte store.
    pub fn __atomic_store_4(&mut self, dst: usize, val: u32, _ordering: i32)
        requires
            old(self).wf(),
            old(self).quiescent(),
            dst + 3 <= usize::MAX,
        ensures
            final(self).wf(),
            final(self).quiescent(),
            final(self).bytes@ == store4_spec(old(self).bytes@, dst, val),
    {
        let idx = addr_to_lock_idx(dst);
        self.acquire_spinlock(idx);
        let hi = (val / 0x10000) as u16;
        let lo = (val % 0x10000) as u16;
        self.mem_write(dst, (hi / 0x100) as u8);
        self.mem_write(dst + 1, (hi % 0x100) as u8);
        self.mem_write(dst + 2, (lo / 0x100) as u8);
        self.mem_write(dst + 3, (lo % 0x100) as u8);
        self.release_spinlock(idx);
        proof {
            lemma_lock_round_trip(old(self).locks@, idx as int);
        }
    }
}

impl SoftwareAtomicUnit {
    /// Atomic 1-byte compare-and-swap, value-returning form: the word
    /// becomes `newval` only when it currently equals `oldval`, is left
    /// unchanged otherwise, and in both cases the value actually
    /// present before the attempt is returned — callers detect success
    /// by comparing it with `oldval` themselves.
    pub fn __sync_val_compare_and_swap_1(&mut self, ptr: usize, oldval: u8, newval: u8) -> (r: u8)
        requires
            old(self).wf(),
            old(self).quiescent(),
        ensures
            final(self).wf(),
            final(self).quiescent(),
            r == byte_at(old(self).bytes@, ptr),
            final(self).bytes@ == if r == oldval {
                store1_spec(old(self).bytes@, ptr, newval)
            } else {
                old(self).bytes@
            },
    {
        let idx = addr_to_lock_idx(ptr);
        self.acquire_spinlock(idx);
        let current = self.mem_read(ptr);
        if current == oldval {
            self.mem_write(ptr, newval);
        }
        self.release_spinlock(idx);
        proof {
            lemma_lock_round_trip(old(self).locks@, idx as int);
        }
        current
    }

    /// Atomic 2-byte compare-and-swap, value-returning form.
    pub fn __sync_val_compare_and_swap_2(&mut self, ptr: usize, oldval: u16, newval: u16) -> (r:
        u16)
        requires
            old(self).wf(),
            old(self).quiescent(),
            ptr + 1 <= usize::MAX,
        ensures
            final(self).wf(),
            final(self).quiescent(),
            r == word2_at(old(self).bytes@, ptr),
            final(self).bytes@ == if r == oldval {
                store2_spec(old(self).bytes@, ptr, newval)
            } else {
                old(self).bytes@
            },
    {
        let idx = addr_to_lock_idx(ptr);
        self.acquire_spinlock(idx);
        let b0 = self.mem_read(ptr);
        let b1 = self.mem_read(ptr + 1);
        let current = (b0 as u16) * 0x100 + (b1 as u16);
        if current == oldval {
            self.mem_write(ptr, (newval / 0x100) as u8);
            self.mem_write(ptr + 1, (newval % 0x100) as u8);
        }
        self.release_spinlock(idx);
        proof {
            lemma_lock_round_trip(old(self).locks@, idx as int);
        }
        current
    }

    /// Atomic 4-byte compare-and-swap, value-returning form.
    pub fn __sync_val_compare_and_swap_4(&mut self, ptr: usize, oldval: u32, newval: u32) -> (r:
        u32)
        requires
            old(self).wf(),
            old(self).quiescent(),
            ptr + 3 <= usize::MAX,
        ensures
            final(self).wf(),
            final(self).quiescent(),
            r == word4_at(old(self).bytes@, ptr),
            final(self).bytes@ == if r == oldval {
                store4_spec(old(self).bytes@, ptr, newval)
            } else {
                old(self).bytes@
            },
    {
        let idx = addr_to_lock_idx(ptr);
        self.acquire_spinlock(idx);
        let b0 = self.mem_read(ptr);
        let b1 = self.mem_read(ptr + 1);
        let b2 = self.mem_read(ptr + 2);
        let b3 = self.mem_read(ptr + 3);
        let hi = (b0 as u16) * 0x100 + (b1 as u16);
        let lo = (b2 as u16) * 0x100 + (b3 as u16);
        let current = (hi as u32) * 0x10000 + (lo as u32);
        if current == oldval {
            let nhi = (newval / 0x10000) as u16;
            let nlo = (newval % 0x10000) as u16;
            self.mem_write(ptr, (nhi / 0x100) as u8);
            self.mem_write(ptr + 1, (nhi % 0x100) as u8);
            self.mem_write(ptr + 2, (nlo / 0x100) as u8);
            self.mem_write(ptr + 3, (nlo % 0x100) as u8);
        }
        self.release_spinlock(idx);
        proof {
            lemma_lock_round_trip(old(self).locks@, idx as int);
        }
        current
    }

    /// Atomic 1-byte exchange: stores the value and returns the
    /// previous one.
    pub fn __atomic_exchange_1(&mut self, ptr: usize, val: u8, _ordering: i32) -> (r: u8)
        requires
            old(self).wf(),
            old(self).quiescent(),
        ensures
            final(self).wf(),
            final(self).quiescent(),
            r == byte_at(old(self).bytes@, ptr),
            final(self).bytes@ == store1_spec(old(self).bytes@, ptr, val),
    {
        let idx = addr_to_lock_idx(ptr);
        self.acquire_spinlock(idx);
        let prev = self.mem_read(ptr);
        self.mem_write(ptr, val);
        self.release_spinlock(idx);
        proof {
            lemma_lock_round_trip(old(self).locks@, idx as int);
        }
        prev
    }

    /// Atomic 2-byte exchange.
    pub fn __atomic_exchange_2(&mut self, ptr: usize, val: u16, _ordering: i32) -> (r: u16)
        requires
            old(self).wf(),
            old(self).quiescent(),
            ptr + 1 <= usize::MAX,
        ensures
            final(self).wf(),
            final(self).quiescent(),
            r == word2_at(old(self).bytes@, ptr),
            final(self).bytes@ == store2_spec(old(self).bytes@, ptr, val),
    {
        let idx = addr_to_lock_idx(ptr);
        self.acquire_spinlock(idx);
        let b0 = self.mem_read(ptr);
        let b1 = self.mem_read(ptr + 1);
        self.mem_write(ptr, (val / 0x100) as u8);
        self.mem_write(ptr + 1, (val % 0x100) as u8);
        self.release_spinlock(idx);
        proof {
            lemma_lock_round_trip(old(self).locks@, idx as int);
        }
        (b0 as u16) * 0x100 + (b1 as u16)
    }

    /// Atomic 4-byte exchange.
    pub fn __atomic_exchange_4(&mut self, ptr: usize, val: u32, _ordering: i32) -> (r: u32)
        requires
            old(self).wf(),
            old(self).quiescent(),
            ptr + 3 <= usize::MAX,
        ensures
            final(self).wf(),
            final(self).quiescent(),
            r == word4_at(old(self).bytes@, ptr),
            final(self).bytes@ == store4_spec(old(self).bytes@, ptr, val),
    {
        let idx = addr_to_lock_idx(ptr);
        self.acquire_spinlock(idx);
        let b0 = self.mem_read(ptr);
        let b1 = self.mem_read(ptr + 1);
        let b2 = self.mem_read(ptr + 2);
        let b3 = self.mem_read(ptr + 3);
        let hi = (val / 0x10000) as u16;
        let lo = (val % 0x10000) as u16;
        self.mem_write(ptr, (hi / 0x100) as u8);
        self.mem_write(ptr + 1, (hi % 0x100) as u8);
        self.mem_write(ptr + 2, (lo / 0x100) as u8);
        self.mem_write(ptr + 3, (lo % 0x100) as u8);
        self.release_spinlock(idx);
        proof {
            lemma_lock_round_trip(old(self).locks@, idx as int);
        }
        let phi = (b0 as u16) * 0x100 + (b1 as u16);
        let plo = (b2 as u16) * 0x100 + (b3 as u16);
        (phi as u32) * 0x10000 + (plo as u32)
    }

    /// Atomic 1-byte fetch-and-add: adds with wraparound at the word
    /// width — overflow is never signalled — and returns the previous
    /// value.
    pub fn __sync_fetch_and_add_1(&mut self, ptr: usize, val: u8) -> (r: u8)
        requires
            old(self).wf(),
            old(self).quiescent(),
        ensures
            final(self).wf(),
            final(self).quiescent(),
            r == byte_at(old(self).bytes@, ptr),
            final(self).bytes@ == store1_spec(
                old(self).bytes@,
                ptr,
                wrap_add1(byte_at(old(self).bytes@, ptr), val),
            ),
    {
        let idx = addr_to_lock_idx(ptr);
        self.acquire_spinlock(idx);
        let prev = self.mem_read(ptr);
        let updated = prev.wrapping_add(val);
        proof {
            lemma_wrapping_add_is_mod_1(prev, val);
        }
        self.mem_write(ptr, updated);
        self.release_spinlock(idx);
        proof {
            lemma_lock_round_trip(old(self).locks@, idx as int);
        }
        prev
    }

    /// Atomic 2-byte fetch-and-add.
    pub fn __sync_fetch_and_add_2(&mut self, ptr: usize, val: u16) -> (r: u16)
        requires
            old(self).wf(),
            old(self).quiescent(),
            ptr + 1 <= usize::MAX,
        ensures
            final(self).wf(),
            final(self).quiescent(),
            r == word2_at(old(self).bytes@, ptr),
            final(self).bytes@ == store2_spec(
                old(self).bytes@,
                ptr,
                wrap_add2(word2_at(old(self).bytes@, ptr), val),
            ),
    {
        let idx = addr_to_lock_idx(ptr);
        self.acquire_spinlock(idx);
        let b0 = self.mem_read(ptr);
        let b1 = self.mem_read(ptr + 1);
        let prev = (b0 as u16) * 0x100 + (b1 as u16);
        let updated = prev.wrapping_add(val);
        proof {
            lemma_wrapping_add_is_mod_2(prev, val);
        }
        self.mem_write(ptr, (updated / 0x100) as u8);
        self.mem_write(ptr + 1, (updated % 0x100) as u8);
        self.release_spinlock(idx);
        proof {
            lemma_lock_round_trip(old(self).locks@, idx as int);
        }
        prev
    }

    /// Atomic 4-byte fetch-and-add.
    pub fn __sync_fetch_and_add_4(&mut self, ptr: usize, val: u32) -> (r: u32)
        requires
            old(self).wf(),
            old(self).quiescent(),
            ptr + 3 <= usize::MAX,
        ensures
            final(self).wf(),
            final(self).quiescent(),
            r == word4_at(old(self).bytes@, ptr),
            final(self).bytes@ == store4_spec(
                old(self).bytes@,
                ptr,
                wrap_add4(word4_at(old(self).bytes@, ptr), val),
            ),
    {
        let idx = addr_to_lock_idx(ptr);
        self.acquire_spinlock(idx);
        let b0 = self.mem_read(ptr);
        let b1 = self.mem_read(ptr + 1);
        let b2 = self.mem_read(ptr + 2);
        let b3 = self.mem_read(ptr + 3);
        let phi = (b0 as u16) * 0x100 + (b1 as u16);
        let plo = (b2 as u16) * 0x100 + (b3 as u16);
        let prev = (phi as u32) * 0x10000 + (plo as u32);
        let updated = prev.wrapping_add(val);
        proof {
            lemma_wrapping_add_is_mod_4(prev, val);
        }
        let nhi = (updated / 0x10000) as u16;
        let nlo = (updated % 0x10000) as u16;
        self.mem_write(ptr, (nhi / 0x100) as u8);
        self.mem_write(ptr + 1, (nhi % 0x100) as u8);
        self.mem_write(ptr + 2, (nlo / 0x100) as u8);
        self.mem_write(ptr + 3, (nlo % 0x100) as u8);
        self.release_spinlock(idx);
        proof {
            lemma_lock_round_trip(old(self).locks@, idx as int);
        }
        prev
    }

    /// Atomic 1-byte compare-and-swap, boolean-returning convenience
    /// form: reports whether the previous value equalled `oldval`.
    pub fn __sync_bool_compare_and_swap_1(&mut self, ptr: usize, oldval: u8, newval: u8) -> (r:
        bool)
        requires
            old(self).wf(),
            old(self).quiescent(),
        ensures
            final(self).wf(),
            final(self).quiescent(),
            r == (byte_at(old(self).bytes@, ptr) == oldval),
            final(self).bytes@ == if r {
                store1_spec(old(self).bytes@, ptr, newval)
            } else {
                old(self).bytes@
            },
    {
        self.__sync_val_compare_and_swap_1(ptr, oldval, newval) == oldval
    }

    /// Atomic 2-byte compare-and-swap, boolean-returning form.
    pub fn __sync_bool_compare_and_swap_2(&mut self, ptr: usize, oldval: u16, newval: u16) -> (r:
        bool)
        requires
            old(self).wf(),
            old(self).quiescent(),
            ptr + 1 <= usize::MAX,
        ensures
            final(self).wf(),
            final(self).quiescent(),
            r == (word2_at(old(self).bytes@, ptr) == oldval),
            final(self).bytes@ == if r {
                store2_spec(old(self).bytes@, ptr, newval)
            } else {
                old(self).bytes@
            },
    {
        self.__sync_val_compare_and_swap_2(ptr, oldval, newval) == oldval
    }

    /// Atomic 4-byte compare-and-swap, boolean-returning form.
    pub fn __sync_bool_compare_and_swap_4(&mut self, ptr: usize, oldval: u32, newval: u32) -> (r:
        bool)
        requires
            old(self).wf(),
            old(self).quiescent(),
            ptr + 3 <= usize::MAX,
        ensures
            final(self).wf(),
            final(self).quiescent(),
            r == (word4_at(old(self).bytes@, ptr) == oldval),
            final(self).bytes@ == if r {
                store4_spec(old(self).bytes@, ptr, newval)
            } else {
                old(self).bytes@
            },
    {
        self.__sync_val_compare_and_swap_4(ptr, oldval, newval) == oldval
    }

    /// A process-wide ordering barrier with no associated address. It
    /// takes no stripe; in this sequential model it neither reads nor
    /// writes, so the unit is returned exactly as it was.
    pub fn __sync_synchronize(&mut self)
        requires
            old(self).wf(),
        ensures
            *final(self) == *old(self),
    {
        // a sequentially-consistent fence on the real unit; no modeled
        // state to order here
    }
}

/// The standard wrapping addition on one byte equals addition reduced
/// modulo the word size.
pub proof fn lemma_wrapping_add_is_mod_1(a: u8, b: u8)
    ensures
        vstd::wrapping::u8_specs::wrapping_add(a, b) == wrap_add1(a, b),
{
    if a + b > u8::MAX {
        vstd::arithmetic::div_mod::lemma_mod_sub_multiples_vanish((a + b) as int, 0x100);
        vstd::arithmetic::div_mod::lemma_small_mod((a + b - 0x100) as nat, 0x100nat);
    } else {
        vstd::arithmetic::div_mod::lemma_small_mod((a + b) as nat, 0x100nat);
    }
}

/// The standard wrapping addition on a 2-byte word equals addition
/// reduced modulo the word size.
pub proof fn lemma_wrapping_add_is_mod_2(a: u16, b: u16)
    ensures
        vstd::wrapping::u16_specs::wrapping_add(a, b) == wrap_add2(a, b),
{
    if a + b > u16::MAX {
        vstd::arithmetic::div_mod::lemma_mod_sub_multiples_vanish((a + b) as int, 0x10000);
        vstd::arithmetic::div_mod::lemma_small_mod((a + b - 0x10000) as nat, 0x10000nat);
    } else {
        vstd::arithmetic::div_mod::lemma_small_mod((a + b) as nat, 0x10000nat);
    }
}

/// The standard wrapping addition on a 4-byte word equals addition
/// reduced modulo the word size.
pub proof fn lemma_wrapping_add_is_mod_4(a: u32, b: u32)
    ensures
        vstd::wrapping::u32_specs::wrapping_add(a, b) == wrap_add4(a, b),
{
    if a + b > u32::MAX {
        vstd::arithmetic::div_mod::lemma_mod_sub_multiples_vanish((a + b) as int, 0x1_0000_0000);
        vstd::arithmetic::div_mod::lemma_small_mod((a + b - 0x1_0000_0000) as nat, 0x1_0000_0000nat);
    } else {
        vstd::arithmetic::div_mod::lemma_small_mod((a + b) as nat, 0x1_0000_0000nat);
    }
}

/// Compare-and-swap succeeds exactly on the expected value: when the
/// 1-byte word currently equals `expected`, installing `desired` makes
/// a following load of the same address return `desired`. (When it does
/// not, the operation's contract leaves memory bytewise unchanged, so a
/// following load returns the untouched current value.)
pub proof fn lemma_compare_and_swap_installs_1(m: Map<usize, u8>, a: usize, desired: u8)
    ensures
        byte_at(store1_spec(m, a, desired), a) == desired,
{
}

/// Compare-and-swap installs the desired value at width 2; as at width
/// 1.
pub proof fn lemma_compare_and_swap_installs_2(m: Map<usize, u8>, a: usize, desired: u16)
    requires
        a + 1 <= usize::MAX,
    ensures
        word2_at(store2_spec(m, a, desired), a) == desired,
{
    lemma_store_load_round_trip_2(m, a, desired);
}

/// Compare-and-swap installs the desired value at width 4; as at width
/// 1.
pub proof fn lemma_compare_and_swap_installs_4(m: Map<usize, u8>, a: usize, desired: u32)
    requires
        a + 3 <= usize::MAX,
    ensures
        word4_at(store4_spec(m, a, desired), a) == desired,
{
    lemma_store_load_round_trip_4(m, a, desired);
}

/// Sequential fetch-and-add accumulates: adding `x` and then `y` leaves
/// the 4-byte word equal to the initial value plus `x + y`, wrapped to
/// the word width.
pub proof fn lemma_fetch_add_accumulates_4(m: Map<usize, u8>, a: usize, x: u32, y: u32)
    requires
        a + 3 <= usize::MAX,
    ensures
        ({
            let w0 = word4_at(m, a);
            let m1 = store4_spec(m, a, wrap_add4(w0, x));
            let m2 = store4_spec(m1, a, wrap_add4(word4_at(m1, a), y));
            word4_at(m2, a) == ((w0 + x + y) % 0x1_0000_0000) as u32
        }),
{
    let w0 = word4_at(m, a);
    let m1 = store4_spec(m, a, wrap_add4(w0, x));
    lemma_store_load_round_trip_4(m, a, wrap_add4(w0, x));
    let w1 = word4_at(m1, a);
    let m2 = store4_spec(m1, a, wrap_add4(w1, y));
    lemma_store_load_round_trip_4(m1, a, wrap_add4(w1, y));
    vstd::arithmetic::div_mod::lemma_mod_bound((w0 + x) as int, 0x1_0000_0000);
    vstd::arithmetic::div_mod::lemma_add_mod_noop_right(
        y as int,
        (w0 + x) as int,
        0x1_0000_0000,
    );
}

/// A 4-byte store to a word that does not overlap another word leaves
/// that word's value untouched, wherever the two hash.
pub proof fn lemma_store4_disjoint_frame(m: Map<usize, u8>, a1: usize, a2: usize, v: u32)
    requires
        a1 + 3 <= usize::MAX,
        a2 + 3 <= usize::MAX,
        a1 + 3 < a2 || a2 + 3 < a1,
    ensures
        word4_at(store4_spec(m, a2, v), a1) == word4_at(m, a1),
{
    lemma_store4_bytes(m, a2, v);
    assert(byte_at(store4_spec(m, a2, v), a1) == byte_at(m, a1));
    assert(byte_at(store4_spec(m, a2, v), (a1 + 1) as usize) == byte_at(m, (a1 + 1) as usize));
    assert(byte_at(store4_spec(m, a2, v), (a1 + 2) as usize) == byte_at(m, (a1 + 2) as usize));
    assert(byte_at(store4_spec(m, a2, v), (a1 + 3) as usize) == byte_at(m, (a1 + 3) as usize));
}

/// Sequential fetch-and-add accumulates across unrelated traffic: a
/// store to a word on another stripe that does not overlap this word,
/// interleaved between the two additions, leaves the accumulation of
/// `x` and then `y` untouched. (Two words on different stripes can
/// still overlap byte-wise; those are excluded, as one of them would
/// genuinely overwrite the other.)
pub proof fn lemma_fetch_add_accumulates_4_with_interleaving(
    m: Map<usize, u8>,
    a: usize,
    x: u32,
    y: u32,
    b: usize,
    v: u32,
)
    requires
        a + 3 <= usize::MAX,
        b + 3 <= usize::MAX,
        stripe_of(a) != stripe_of(b),
        a + 3 < b || b + 3 < a,
    ensures
        ({
            let w0 = word4_at(m, a);
            let m1 = store4_spec(m, a, wrap_add4(w0, x));
            let m2 = store4_spec(m1, b, v);
            let m3 = store4_spec(m2, a, wrap_add4(word4_at(m2, a), y));
            word4_at(m3, a) == ((w0 + x + y) % 0x1_0000_0000) as u32
        }),
{
    let w0 = word4_at(m, a);
    let m1 = store4_spec(m, a, wrap_add4(w0, x));
    lemma_store_load_round_trip_4(m, a, wrap_add4(w0, x));
    lemma_store4_disjoint_frame(m1, a, b, v);
    let m2 = store4_spec(m1, b, v);
    lemma_store_load_round_trip_4(m2, a, wrap_add4(word4_at(m2, a), y));
    vstd::arithmetic::div_mod::lemma_mod_bound((w0 + x) as int, 0x1_0000_0000);
    vstd::arithmetic::div_mod::lemma_add_mod_noop_right(
        y as int,
        (w0 + x) as int,
        0x1_0000_0000,
    );
}

/// Stripe collisions are harmless at width 1: a store to a different
/// address that shares this address's stripe leaves this address's
/// value untouched.
pub proof fn lemma_stripe_collision_safe_1(m: Map<usize, u8>, a1: usize, a2: usize, v: u8)
    requires
        stripe_of(a1) == stripe_of(a2),
        a1 != a2,
    ensures
        byte_at(store1_spec(m, a2, v), a1) == byte_at(m, a1),
{
}

/// Stripe collisions are harmless at width 2: a store to a 2-byte word
/// that shares this word's stripe but does not overlap it leaves this
/// word's value untouched.
pub proof fn lemma_stripe_collision_safe_2(m: Map<usize, u8>, a1: usize, a2: usize, v: u16)
    requires
        a1 + 1 <= usize::MAX,
        a2 + 1 <= usize::MAX,
        stripe_of(a1) == stripe_of(a2),
        a1 + 1 < a2 || a2 + 1 < a1,
    ensures
        word2_at(store2_spec(m, a2, v), a1) == word2_at(m, a1),
{
    lemma_store2_bytes(m, a2, v);
}

/// Stripe collisions are harmless at width 4: a store to a 4-byte word
/// that shares this word's stripe but does not overlap it leaves this
/// word's value untouched — so each address keeps its own store/load
/// round trip even under false sharing.
pub proof fn lemma_stripe_collision_safe_4(m: Map<usize, u8>, a1: usize, a2: usize, v: u32)
    requires
        a1 + 3 <= usize::MAX,
        a2 + 3 <= usize::MAX,
        stripe_of(a1) == stripe_of(a2),
        a1 + 3 < a2 || a2 + 3 < a1,
    ensures
        word4_at(store4_spec(m, a2, v), a1) == word4_at(m, a1),
{
    lemma_store4_disjoint_frame(m, a1, a2, v);
}

} // verus!
