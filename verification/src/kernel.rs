//! An explicit model of the kernel that stands behind the trap
//! interface: its virtual-memory service, its byte streams, its open
//! files, and process termination.
//!
//! The layers above the traps are verified against this model. A test
//! double is obtained from the same model by injecting failures (see
//! [`Kernel::set_vm_failure`]) or by capping the transfer size of the
//! byte-stream write primitive (see [`Kernel::set_write_cap`]).

use vstd::prelude::*;

verus! {

/// The fixed page size of the target's virtual-memory service, in bytes.
pub const PAGE_SIZE: usize = 4096;

/// `size` rounded up to the next multiple of the page size.
pub open spec fn page_round(size: int) -> int {
    ((size + 4095) / 4096) * 4096
}

/// Page rounding yields the least page multiple not below `size`:
/// exactly `ceil(size / 4096) * 4096`, reached without overshooting a
/// full page, and the identity on sizes that are already page multiples.
pub proof fn lemma_page_round_properties(s: int)
    requires
        0 <= s,
    ensures
        page_round(s) % 4096 == 0,
        s <= page_round(s) < s + 4096,
        s % 4096 == 0 ==> page_round(s) == s,
{
    let q = (s + 4095) / 4096;
    vstd::arithmetic::div_mod::lemma_fundamental_div_mod(s + 4095, 4096);
    vstd::arithmetic::div_mod::lemma_mod_bound(s + 4095, 4096);
    vstd::arithmetic::div_mod::lemma_mod_multiples_basic(q, 4096);
    if s % 4096 == 0 {
        vstd::arithmetic::div_mod::lemma_add_mod_noop(s, 4095, 4096);
        vstd::arithmetic::div_mod::lemma_small_mod(4095, 4096);
        assert((s + 4095) % 4096 == 4095);
    }
}

/// One virtual-memory mapping: a base address and a length, both in
/// whole pages. Regions are handed out by the kernel's anywhere-mapping
/// service and unmapped exactly once.
#[derive(Clone, Copy, Debug, PartialEq, Eq, Structural)]
pub struct MemoryRegion {
    pub base: usize,
    pub len: usize,
}

impl MemoryRegion {
    /// Page alignment and page granularity of a mapped region.
    pub open spec fn wf(self) -> bool {
        &&& self.base % 4096 == 0
        &&& self.base >= 4096
        &&& self.len % 4096 == 0
        &&& self.len > 0
    }
}

/// One named file: its path (without a terminating NUL) and its bytes.
pub struct FileNode {
    pub path: Vec<u8>,
    pub data: Vec<u8>,
}

/// One open file descriptor: the descriptor number, the index of the
/// file it refers to, the read/write position, and the access mode it
/// was opened with.
#[derive(Clone, Copy, Debug, PartialEq, Eq, Structural)]
pub struct OpenFile {
    pub fd: i32,
    pub node: usize,
    pub pos: usize,
    pub readable: bool,
    pub writable: bool,
}

/// The kernel model. Fields are public so that tests and callers can
/// state and inspect kernel state directly; all operations of the trap
/// interface preserve [`Kernel::wf`].
pub struct Kernel {
    /// Identifier of the (single) process this model serves.
    pub pid: i32,
    /// The next page-aligned address the anywhere-mapping service hands
    /// out. Strictly grows; addresses are never reused, so fresh
    /// regions are zero-filled.
    pub next_addr: usize,
    /// The regions currently mapped.
    pub regions: Vec<MemoryRegion>,
    /// Failure injection: when set, every virtual-memory allocation
    /// fails with a resource-exhaustion status.
    pub vm_fail: bool,
    /// The most bytes one byte-stream write transfers; smaller caps
    /// simulate partial writes, a cap of zero a sink that accepts
    /// nothing.
    pub write_cap: usize,
    /// Bytes written so far to the standard output stream.
    pub stdout_data: Vec<u8>,
    /// Bytes written so far to the standard error stream.
    pub stderr_data: Vec<u8>,
    /// Bytes available on the standard input stream.
    pub stdin_data: Vec<u8>,
    /// How much of the standard input stream has been consumed.
    pub stdin_pos: usize,
    /// The named files.
    pub files: Vec<FileNode>,
    /// The open file descriptors.
    pub fds: Vec<OpenFile>,
    /// The next descriptor number `open` hands out.
    pub next_fd: i32,
    /// `Some(code)` once the process has terminated.
    pub exit_status: Option<i32>,
}

impl Kernel {
    /// Well-formedness of the kernel state: the allocation cursor is
    /// page-aligned and above the null page, every mapped region is
    /// page-granular and lies below the cursor, input consumption never
    /// overruns the input, and every open descriptor refers to an
    /// existing file under a unique descriptor number.
    pub open spec fn wf(self) -> bool {
        &&& self.next_addr % 4096 == 0
        &&& self.next_addr >= 4096
        &&& forall|i: int|
            0 <= i < self.regions@.len() ==> (#[trigger] self.regions@[i]).wf()
                && self.regions@[i].base + self.regions@[i].len <= self.next_addr
        &&& self.stdin_pos <= self.stdin_data@.len()
        &&& forall|i: int|
            0 <= i < self.fds@.len() ==> (#[trigger] self.fds@[i]).node < self.files@.len()
                && 3 <= self.fds@[i].fd < self.next_fd
        &&& forall|i: int, j: int|
            0 <= i < j < self.fds@.len() ==> (#[trigger] self.fds@[i].fd) != (
            #[trigger] self.fds@[j].fd)
        &&& self.next_fd >= 3
        &&& forall|i: int, j: int|
            0 <= i < j < self.files@.len() ==> (#[trigger] self.files@[i].path@) != (
            #[trigger] self.files@[j].path@)
    }

    /// True while the process has not terminated.
    pub open spec fn live(self) -> bool {
        self.exit_status is None
    }

    /// True when the kernel currently maps exactly the region
    /// `(base, len)`.
    pub open spec fn has_region(self, base: usize, len: usize) -> bool {
        exists|i: int|
            0 <= i < self.regions@.len() && (#[trigger] self.regions@[i]) == (MemoryRegion {
                base,
                len,
            })
    }

    /// True when `fd` names an open descriptor.
    pub open spec fn has_fd(self, fd: i32) -> bool {
        exists|i: int| 0 <= i < self.fds@.len() && (#[trigger] self.fds@[i]).fd == fd
    }

    /// The slot of descriptor `fd` in the descriptor table; under
    /// [`Kernel::wf`] descriptor numbers are unique, so the slot is
    /// determined.
    pub open spec fn fd_slot(self, fd: i32) -> int {
        choose|i: int| 0 <= i < self.fds@.len() && (#[trigger] self.fds@[i]).fd == fd
    }

    /// True when a file with this name exists.
    pub open spec fn has_file(self, name: Seq<u8>) -> bool {
        exists|i: int| 0 <= i < self.files@.len() && (#[trigger] self.files@[i]).path@ == name
    }

    /// The index of the first file with this name.
    pub open spec fn file_index(self, name: Seq<u8>) -> int {
        choose|i: int| 0 <= i < self.files@.len() && (#[trigger] self.files@[i]).path@ == name
    }

    /// A fresh kernel: nothing mapped, empty streams, no files, no
    /// open descriptors, process running.
    pub fn new() -> (k: Kernel)
        ensures
            k.wf(),
            k.live(),
            k.pid == 1,
            k.next_addr == 4096,
            k.regions@.len() == 0,
            !k.vm_fail,
            k.write_cap == usize::MAX,
            k.stdout_data@.len() == 0,
            k.stderr_data@.len() == 0,
            k.stdin_data@.len() == 0,
            k.stdin_pos == 0,
            k.files@.len() == 0,
            k.fds@.len() == 0,
            k.next_fd == 3,
    {
        Kernel {
            pid: 1,
            next_addr: 4096,
            regions: Vec::new(),
            vm_fail: false,
            write_cap: usize::MAX,
            stdout_data: Vec::new(),
            stderr_data: Vec::new(),
            stdin_data: Vec::new(),
            stdin_pos: 0,
            files: Vec::new(),
            fds: Vec::new(),
            next_fd: 3,
            exit_status: None,
        }
    }

    /// Failure injection: make every following virtual-memory
    /// allocation fail (or succeed again).
    pub fn set_vm_failure(&mut self, fail: bool)
        requires
            old(self).wf(),
        ensures
            final(self).wf(),
            *final(self) == (Kernel { vm_fail: fail, ..*old(self) }),
    {
        self.vm_fail = fail;
    }

    /// Cap the number of bytes one byte-stream write transfers, to
    /// simulate partial writes.
    pub fn set_write_cap(&mut self, cap: usize)
        requires
            old(self).wf(),
        ensures
            final(self).wf(),
            *final(self) == (Kernel { write_cap: cap, ..*old(self) }),
    {
        self.write_cap = cap;
    }

    /// Append bytes to the standard input stream, to be consumed by
    /// later reads.
    pub fn feed_stdin(&mut self, bytes: &[u8])
        requires
            old(self).wf(),
            old(self).stdin_data@.len() + bytes@.len() <= usize::MAX,
        ensures
            final(self).wf(),
            final(self).stdin_data@ == old(self).stdin_data@ + bytes@,
            *final(self) == (Kernel { stdin_data: final(self).stdin_data, ..*old(self) }),
    {
        let mut i: usize = 0;
        let ghost k0 = *self;
        while i < bytes.len()
            invariant
                i <= bytes@.len(),
                self.stdin_data@ == k0.stdin_data@ + bytes@.subrange(0, i as int),
                *self == (Kernel { stdin_data: self.stdin_data, ..k0 }),
            decreases bytes@.len() - i,
        {
            self.stdin_data.push(bytes[i]);
            i = i + 1;
            proof {
                assert(self.stdin_data@ =~= k0.stdin_data@ + bytes@.subrange(0, i as int));
            }
        }
        proof {
            assert(bytes@.subrange(0, bytes@.len() as int) =~= bytes@);
        }
    }
}

/// `data` extended with zero bytes until it is at least `n` long.
pub open spec fn zero_pad(data: Seq<u8>, n: int) -> Seq<u8> {
    if n > data.len() {
        data + Seq::new((n - data.len()) as nat, |i: int| 0u8)
    } else {
        data
    }
}

/// The contents of a file after writing `bytes` at offset `pos`: bytes
/// before `pos` are kept, a gap beyond the old end is zero-filled, the
/// written bytes replace what they overlap, and bytes after them are
/// kept.
pub open spec fn write_bytes_at(data: Seq<u8>, pos: int, bytes: Seq<u8>) -> Seq<u8>
    recommends
        0 <= pos,
{
    let base = zero_pad(data, pos);
    let tail = if pos + bytes.len() < base.len() {
        base.subrange(pos + bytes.len(), base.len() as int)
    } else {
        Seq::<u8>::empty()
    };
    base.subrange(0, pos) + bytes + tail
}

/// Pointwise description of [`write_bytes_at`]: its length and each of
/// its bytes.
pub proof fn lemma_write_bytes_at(data: Seq<u8>, pos: int, bytes: Seq<u8>)
    requires
        0 <= pos,
    ensures
        write_bytes_at(data, pos, bytes).len() == if pos + bytes.len() > data.len() {
            pos + bytes.len()
        } else {
            data.len() as int
        },
        forall|j: int|
            0 <= j < pos && j < data.len() ==> #[trigger] write_bytes_at(data, pos, bytes)[j]
                == data[j],
        forall|j: int|
            0 <= j < pos && data.len() <= j ==> #[trigger] write_bytes_at(data, pos, bytes)[j]
                == 0,
        forall|j: int|
            pos <= j < pos + bytes.len() ==> #[trigger] write_bytes_at(data, pos, bytes)[j]
                == bytes[j - pos],
        forall|j: int|
            pos + bytes.len() <= j < data.len() ==> #[trigger] write_bytes_at(data, pos, bytes)[j]
                == data[j],
{
}

/// Consecutive writes compose: writing `c1` at `pos` and then `c2`
/// right after it leaves the same contents as one write of `c1 + c2`
/// at `pos`.
pub proof fn lemma_write_bytes_at_append(data: Seq<u8>, pos: int, c1: Seq<u8>, c2: Seq<u8>)
    requires
        0 <= pos,
    ensures
        write_bytes_at(write_bytes_at(data, pos, c1), pos + c1.len(), c2) == write_bytes_at(
            data,
            pos,
            c1 + c2,
        ),
{
    let mid = write_bytes_at(data, pos, c1);
    lemma_write_bytes_at(data, pos, c1);
    lemma_write_bytes_at(mid, pos + c1.len(), c2);
    lemma_write_bytes_at(data, pos, c1 + c2);
    assert(write_bytes_at(mid, pos + c1.len(), c2) =~= write_bytes_at(data, pos, c1 + c2));
}

/// Writes `bytes[..n]` into `data` at offset `pos`, zero-filling any
/// gap between the current end of `data` and `pos`.
pub fn write_into(data: &mut Vec<u8>, pos: usize, bytes: &[u8], n: usize)
    requires
        n <= bytes@.len(),
        pos + n <= usize::MAX,
    ensures
        final(data)@ == write_bytes_at(old(data)@, pos as int, bytes@.subrange(0, n as int)),
{
    let ghost d0 = data@;
    while data.len() < pos
        invariant
            data@ == zero_pad(d0, data@.len() as int),
            data@.len() <= pos || data@.len() == d0.len(),
        decreases pos - data@.len(),
    {
        data.push(0);
        proof {
            assert(data@ =~= zero_pad(d0, data@.len() as int));
        }
    }
    proof {
        assert(data@ =~= zero_pad(d0, pos as int));
    }
    let ghost base = data@;
    let mut i: usize = 0;
    while i < n
        invariant
            i <= n,
            n <= bytes@.len(),
            pos + n <= usize::MAX,
            base == zero_pad(d0, pos as int),
            pos <= base.len(),
            data@.len() == if pos + i > base.len() {
                pos + i
            } else {
                base.len() as int
            },
            forall|j: int| 0 <= j < pos ==> #[trigger] data@[j] == base[j],
            forall|j: int| pos <= j < pos + i ==> #[trigger] data@[j] == bytes@[j - pos],
            forall|j: int| pos + i <= j < base.len() ==> #[trigger] data@[j] == base[j],
        decreases n - i,
    {
        if pos + i < data.len() {
            data.set(pos + i, bytes[i]);
        } else {
            data.push(bytes[i]);
        }
        i = i + 1;
    }
    proof {
        lemma_write_bytes_at(d0, pos as int, bytes@.subrange(0, n as int));
        assert(data@ =~= write_bytes_at(d0, pos as int, bytes@.subrange(0, n as int)));
    }
}

/// Appends `src[..n]` to `dst`.
pub fn append_prefix(dst: &mut Vec<u8>, src: &[u8], n: usize)
    requires
        n <= src@.len(),
    ensures
        final(dst)@ == old(dst)@ + src@.subrange(0, n as int),
{
    let ghost d0 = dst@;
    let mut i: usize = 0;
    while i < n
        invariant
            i <= n,
            n <= src@.len(),
            dst@ == d0 + src@.subrange(0, i as int),
        decreases n - i,
    {
        dst.push(src[i]);
        i = i + 1;
        proof {
            assert(dst@ =~= d0 + src@.subrange(0, i as int));
        }
    }
}

/// Copies `src[from..from + n]` into a fresh vector.
pub fn copy_range(src: &Vec<u8>, from: usize, n: usize) -> (out: Vec<u8>)
    requires
        from + n <= src@.len(),
    ensures
        out@ == src@.subrange(from as int, from as int + n),
{
    let slen = src.len();
    let mut out: Vec<u8> = Vec::new();
    let mut i: usize = 0;
    while i < n
        invariant
            i <= n,
            from + n <= slen,
            slen == src@.len(),
        out@ == src@.subrange(from as int, from as int + i),
        decreases n - i,
    {
        out.push(src[from + i]);
        i = i + 1;
        proof {
            assert(out@ =~= src@.subrange(from as int, from as int + i));
        }
    }
    out
}

/// Byte-for-byte equality of two slices.
pub fn bytes_equal(a: &[u8], b: &[u8]) -> (r: bool)
    ensures
        r == (a@ == b@),
{
    if a.len() != b.len() {
        return false;
    }
    let mut i: usize = 0;
    while i < a.len()
        invariant
            i <= a@.len(),
            a@.len() == b@.len(),
            forall|j: int| 0 <= j < i ==> a@[j] == b@[j],
        decreases a@.len() - i,
    {
        if a[i] != b[i] {
            return false;
        }
        i = i + 1;
    }
    proof {
        assert(a@ =~= b@);
    }
    true
}

/// The index of the first NUL byte in `s`, or the length of `s` when
/// there is none.
pub open spec fn nul_index(s: Seq<u8>) -> int
    decreases s.len(),
{
    if s.len() == 0 {
        0
    } else if s[0] == 0 {
        0
    } else {
        1 + nul_index(s.subrange(1, s.len() as int))
    }
}

/// `nul_index` is the first index holding a NUL byte: everything before
/// it is non-NUL, and it holds a NUL unless there is none at all.
pub proof fn lemma_nul_index(s: Seq<u8>)
    ensures
        0 <= nul_index(s) <= s.len(),
        nul_index(s) < s.len() ==> s[nul_index(s)] == 0,
        forall|j: int| 0 <= j < nul_index(s) ==> s[j] != 0,
    decreases s.len(),
{
    if s.len() == 0 {
    } else if s[0] == 0 {
    } else {
        let t = s.subrange(1, s.len() as int);
        lemma_nul_index(t);
        assert forall|j: int| 0 <= j < nul_index(s) implies s[j] != 0 by {
            if j > 0 {
                assert(t[j - 1] == s[j]);
            }
        }
    }
}

/// Finds the first NUL byte in `s`, returning the length of `s` when
/// there is none.
pub fn find_nul(s: &[u8]) -> (r: usize)
    ensures
        r == nul_index(s@),
{
    let mut i: usize = 0;
    while i < s.len()
        invariant
            i <= s@.len(),
            forall|j: int| 0 <= j < i ==> s@[j] != 0,
        decreases s@.len() - i,
    {
        if s[i] == 0 {
            proof {
                lemma_nul_index(s@);
            }
            return i;
        }
        i = i + 1;
    }
    proof {
        lemma_nul_index(s@);
    }
    s.len()
}

} // verus!
