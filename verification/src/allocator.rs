//! The page-granular allocator over the kernel's virtual-memory
//! service, and the allocation-failure handler.
//!
//! Every request is rounded up to whole pages and serviced by a fresh
//! mapping; every release unmaps immediately. There is no free list, no
//! coalescing and no size-class pooling: memory is never reused between
//! distinct live allocations. This minimality suits a bring-up target;
//! pooling belongs in a layer above this primitive, not inside it.

use vstd::prelude::*;
use vstd::string::StringSliceAdditionalSpecFns;

use crate::kernel::lemma_page_round_properties;
use crate::kernel::page_round;
use crate::kernel::Kernel;
use crate::kernel::MemoryRegion;
use crate::sys;

verus! {

/// The allocator. It keeps no state of its own: the kernel does all
/// bookkeeping, and ownership of a returned region rests solely with
/// the caller, who must release it exactly once.
pub struct MachAllocator;

/// True when `align` is a permitted allocation alignment: a divisor of
/// the page size (that is, a power of two no coarser than one page).
/// The kernel returns page-aligned regions, which satisfy every such
/// alignment without extra work; coarser alignments are out of scope.
pub open spec fn valid_align(align: usize) -> bool {
    align >= 1 && 4096int % align as int == 0
}

/// An address aligned to the page size is aligned to every divisor of
/// the page size.
pub proof fn lemma_page_aligned_divides(addr: int, align: int)
    requires
        addr >= 0,
        align >= 1,
        addr % 4096 == 0,
        4096int % align == 0,
    ensures
        addr % align == 0,
{
    let m = addr / 4096;
    let q = 4096int / align;
    vstd::arithmetic::div_mod::lemma_fundamental_div_mod(addr, 4096);
    vstd::arithmetic::div_mod::lemma_fundamental_div_mod(4096, align);
    assert(addr == 4096 * m);
    assert(4096 == align * q);
    assert(addr == (m * q) * align) by (nonlinear_arith)
        requires
            addr == 4096 * m,
            4096 == align * q,
    ;
    vstd::arithmetic::div_mod::lemma_mod_multiples_basic(m * q, align);
}

/// `size` rounded up to the next multiple of the page size: exactly
/// `ceil(size / 4096) * 4096`, for every size, also those above one
/// page.
pub fn round_up_to_page(size: usize) -> (r: usize)
    requires
        size <= usize::MAX - 4095,
    ensures
        r == page_round(size as int),
        r % 4096 == 0,
        size <= r < size + 4096,
{
    proof {
        lemma_page_round_properties(size as int);
    }
    ((size + 4095) / 4096) * 4096
}

impl MachAllocator {
    /// Allocates `size` bytes, rounded up to whole pages, by mapping a
    /// fresh region through the kernel's anywhere-mapping service.
    /// Returns the page-aligned base address of the region, or the null
    /// sentinel `0` exactly when the kernel refuses the request (an
    /// empty request, injected failure, or an exhausted address space).
    pub fn allocate(&self, k: &mut Kernel, size: usize, align: usize) -> (r: usize)
        requires
            old(k).wf(),
            old(k).live(),
            size <= usize::MAX - 4095,
            valid_align(align),
        ensures
            final(k).wf(),
            final(k).live(),
            sys::vm_fields_only(*old(k), *final(k)),
            r != 0 <==> sys::vm_allocate_ok(*old(k), page_round(size as int) as usize, true),
            r == 0 ==> *final(k) == *old(k),
            r != 0 ==> {
                &&& r == old(k).next_addr
                &&& r % 4096 == 0
                &&& r % align == 0
                &&& r >= 4096
                &&& final(k).regions@ == old(k).regions@.push(
                    MemoryRegion { base: r, len: page_round(size as int) as usize },
                )
                &&& final(k).next_addr == old(k).next_addr + page_round(size as int)
                &&& final(k).has_region(r, page_round(size as int) as usize)
            },
    {
        let rounded = round_up_to_page(size);
        proof {
            lemma_page_round_properties(size as int);
            lemma_page_round_properties(rounded as int);
        }
        match sys::sys_vm_allocate(k, rounded, true) {
            Ok(addr) => {
                proof {
                    lemma_page_aligned_divides(addr as int, align as int);
                    assert(k.regions@[old(k).regions@.len() as int] == (MemoryRegion {
                        base: addr,
                        len: rounded,
                    }));
                }
                addr
            },
            Err(_) => 0,
        }
    }

    /// Releases a region previously returned by [`MachAllocator::allocate`],
    /// rounding the original size the same way the allocation did and
    /// unmapping the whole region. A failure reported by the kernel is
    /// swallowed: the allocation contract offers no channel to report
    /// it, so releasing is best-effort.
    pub fn dealloc(&self, k: &mut Kernel, ptr: usize, size: usize, _align: usize)
        requires
            old(k).wf(),
            old(k).live(),
            size <= usize::MAX - 4095,
        ensures
            final(k).wf(),
            final(k).live(),
            sys::vm_fields_only(*old(k), *final(k)),
            final(k).next_addr == old(k).next_addr,
            old(k).has_region(ptr, page_round(size as int) as usize) ==> exists|i: int|
                0 <= i < old(k).regions@.len() && (#[trigger] old(k).regions@[i]) == (MemoryRegion {
                    base: ptr,
                    len: page_round(size as int) as usize,
                }) && final(k).regions@ == old(k).regions@.remove(i),
            !old(k).has_region(ptr, page_round(size as int) as usize) ==> *final(k) == *old(k),
    {
        let rounded = round_up_to_page(size);
        proof {
            lemma_page_round_properties(size as int);
            lemma_page_round_properties(rounded as int);
        }
        let _ = sys::sys_vm_deallocate(k, ptr, rounded);
    }

    /// Allocates zero-filled memory. Identical to
    /// [`MachAllocator::allocate`]: the kernel's virtual-memory service
    /// contractually returns zero-filled pages, because it hands out
    /// only fresh, never-reused addresses. This equivalence is an
    /// explicit assumption about this kernel, to be revalidated on any
    /// port to a different one.
    pub fn alloc_zeroed(&self, k: &mut Kernel, size: usize, align: usize) -> (r: usize)
        requires
            old(k).wf(),
            old(k).live(),
            size <= usize::MAX - 4095,
            valid_align(align),
        ensures
            final(k).wf(),
            final(k).live(),
            sys::vm_fields_only(*old(k), *final(k)),
            r != 0 <==> sys::vm_allocate_ok(*old(k), page_round(size as int) as usize, true),
            r == 0 ==> *final(k) == *old(k),
            r != 0 ==> {
                &&& r == old(k).next_addr
                &&& r % 4096 == 0
                &&& r % align == 0
                &&& r >= 4096
                &&& final(k).regions@ == old(k).regions@.push(
                    MemoryRegion { base: r, len: page_round(size as int) as usize },
                )
                &&& final(k).next_addr == old(k).next_addr + page_round(size as int)
                &&& final(k).has_region(r, page_round(size as int) as usize)
            },
    {
        self.allocate(k, size, align)
    }
}

/// The fixed diagnostic the allocation-failure handler writes to the
/// error stream.
pub open spec fn alloc_failure_message() -> Seq<u8> {
    "memory allocation failed\n".spec_bytes()
}

/// The allocation-failure handler: writes a fixed diagnostic line to
/// the error stream (best-effort, a partial write is not retried) and
/// terminates the process with a non-zero status. It does so
/// unconditionally: in a freestanding environment with no fallback
/// allocator, exhaustion is fatal, never retried, never recovered.
pub fn alloc_error(k: &mut Kernel)
    requires
        old(k).wf(),
        old(k).live(),
    ensures
        final(k).wf(),
        final(k).exit_status == Some(1i32),
        final(k).stderr_data@ == old(k).stderr_data@ + alloc_failure_message().subrange(
            0,
            sys::write_count(*old(k), alloc_failure_message().len() as int),
        ),
        *final(k) == (Kernel {
            stderr_data: final(k).stderr_data,
            exit_status: Some(1i32),
            ..*old(k)
        }),
{
    let msg: &[u8] = "memory allocation failed\n".as_bytes();
    let _ = sys::sys_write(k, sys::STDERR_FILENO, msg);
    sys::sys_exit(k, 1);
}

/// Round trip: the region a successful allocation maps is exactly what
/// a deallocation with the same original size asks the kernel to unmap,
/// so under normal kernel conditions that deallocation succeeds.
pub proof fn lemma_allocate_deallocate_round_trip(
    pre: Kernel,
    post: Kernel,
    addr: usize,
    size: usize,
)
    requires
        pre.wf(),
        size <= usize::MAX - 4095,
        sys::vm_allocate_ok(pre, page_round(size as int) as usize, true),
        addr == pre.next_addr,
        post.regions@ == pre.regions@.push(
            MemoryRegion { base: addr, len: page_round(size as int) as usize },
        ),
    ensures
        post.has_region(addr, page_round(size as int) as usize),
        sys::vm_deallocate_ok(post, addr, size),
{
    lemma_page_round_properties(size as int);
    assert(post.regions@[pre.regions@.len() as int] == (MemoryRegion {
        base: addr,
        len: page_round(size as int) as usize,
    }));
}

} // verus!
