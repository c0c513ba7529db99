//! The kernel trap interface: typed wrappers that present the kernel's
//! system calls as functions over the explicit kernel model, together
//! with the numeric constants and record layouts of that interface.

use vstd::prelude::*;

use crate::kernel::page_round;
use crate::kernel::write_bytes_at;
use crate::kernel::FileNode;
use crate::kernel::Kernel;
use crate::kernel::MemoryRegion;
use crate::kernel::OpenFile;

verus! {

// Primitive type names of the target's C interface.
#[allow(non_camel_case_types)]
pub type c_int = i32;
#[allow(non_camel_case_types)]
pub type c_long = i32;
#[allow(non_camel_case_types)]
pub type size_t = usize;
#[allow(non_camel_case_types)]
pub type off_t = i32;
#[allow(non_camel_case_types)]
pub type pid_t = i32;
#[allow(non_camel_case_types)]
pub type uid_t = u32;
#[allow(non_camel_case_types)]
pub type gid_t = u32;
#[allow(non_camel_case_types)]
pub type mode_t = u16;
#[allow(non_camel_case_types)]
pub type time_t = i32;
#[allow(non_camel_case_types)]
pub type dev_t = i32;
#[allow(non_camel_case_types)]
pub type ino_t = u32;

// File flags for open().
pub const O_RDONLY: c_int = 0x0000;
pub const O_WRONLY: c_int = 0x0001;
pub const O_RDWR: c_int = 0x0002;
pub const O_NONBLOCK: c_int = 0x0004;
pub const O_APPEND: c_int = 0x0008;
pub const O_CREAT: c_int = 0x0200;
pub const O_TRUNC: c_int = 0x0400;
pub const O_EXCL: c_int = 0x0800;

// Error codes.
pub const EPERM: c_int = 1;
pub const ENOENT: c_int = 2;
pub const EINTR: c_int = 4;
pub const EIO: c_int = 5;
pub const EBADF: c_int = 9;
pub const EAGAIN: c_int = 11;
pub const ENOMEM: c_int = 12;
pub const EACCES: c_int = 13;
pub const EEXIST: c_int = 17;
pub const EINVAL: c_int = 22;
pub const ENFILE: c_int = 23;
pub const EMFILE: c_int = 24;
pub const EPIPE: c_int = 32;

// Virtual-memory protection bits.
pub const VM_PROT_NONE: c_int = 0;
pub const VM_PROT_READ: c_int = 1;
pub const VM_PROT_WRITE: c_int = 2;
pub const VM_PROT_EXECUTE: c_int = 4;

// Status codes of the kernel's virtual-memory service.
pub const KERN_SUCCESS: c_int = 0;
pub const KERN_INVALID_ADDRESS: c_int = 1;
pub const KERN_PROTECTION_FAILURE: c_int = 2;
pub const KERN_NO_SPACE: c_int = 3;
pub const KERN_INVALID_ARGUMENT: c_int = 4;
pub const KERN_FAILURE: c_int = 5;
pub const KERN_RESOURCE_SHORTAGE: c_int = 6;

// Well-known stream identifiers.
pub const STDIN_FILENO: i32 = 0;
pub const STDOUT_FILENO: i32 = 1;
pub const STDERR_FILENO: i32 = 2;

/// The closed set of kinds a kernel status code is classified into.
/// Codes that name no listed condition fall into `Unknown` rather than
/// being rejected; the kind serves diagnostics only.
#[derive(Clone, Copy, Debug, PartialEq, Eq, Structural)]
pub enum StatusKind {
    ResourceExhausted,
    InvalidArgument,
    ProtectionFailure,
    Unknown,
}

/// The kind a raw kernel status code is classified into.
pub open spec fn status_kind_of(code: i32) -> StatusKind {
    if code == KERN_NO_SPACE || code == KERN_RESOURCE_SHORTAGE {
        StatusKind::ResourceExhausted
    } else if code == KERN_INVALID_ADDRESS || code == KERN_INVALID_ARGUMENT {
        StatusKind::InvalidArgument
    } else if code == KERN_PROTECTION_FAILURE {
        StatusKind::ProtectionFailure
    } else {
        StatusKind::Unknown
    }
}

/// The typed result of a failed kernel call: the raw status code
/// together with its classification.
#[derive(Clone, Copy, Debug, PartialEq, Eq, Structural)]
pub struct KernelStatus {
    pub raw: c_int,
    pub kind: StatusKind,
}

impl KernelStatus {
    /// Classifies a raw kernel status code.
    pub fn from_code(code: c_int) -> (r: KernelStatus)
        ensures
            r.raw == code,
            r.kind == status_kind_of(code),
    {
        let kind = if code == KERN_NO_SPACE || code == KERN_RESOURCE_SHORTAGE {
            StatusKind::ResourceExhausted
        } else if code == KERN_INVALID_ADDRESS || code == KERN_INVALID_ARGUMENT {
            StatusKind::InvalidArgument
        } else if code == KERN_PROTECTION_FAILURE {
            StatusKind::ProtectionFailure
        } else {
            StatusKind::Unknown
        };
        KernelStatus { raw: code, kind }
    }
}

// Wait-status helpers.

/// True when the wait status records a normal exit.
#[allow(non_snake_case)]
pub fn WIFEXITED(status: c_int) -> (r: bool)
    ensures
        r == ((status & 0xff) == 0),
{
    (status & 0xff) == 0
}

/// The exit code carried by a wait status.
#[allow(non_snake_case)]
pub fn WEXITSTATUS(status: c_int) -> (r: c_int)
    ensures
        r == ((status >> 8) & 0xff),
{
    (status >> 8) & 0xff
}

/// True when the wait status records death by a signal.
#[allow(non_snake_case)]
pub fn WIFSIGNALED(status: c_int) -> (r: bool)
    ensures
        r == (((status & 0xff) != 0) && ((status & 0xff) != 0x7f)),
{
    ((status & 0xff) != 0) && ((status & 0xff) != 0x7f)
}

/// The signal number carried by a wait status.
#[allow(non_snake_case)]
pub fn WTERMSIG(status: c_int) -> (r: c_int)
    ensures
        r == (status & 0x7f),
{
    status & 0x7f
}

// Record layouts of the trap interface.

/// File metadata as the kernel reports it.
#[allow(non_camel_case_types)]
pub struct stat {
    pub st_dev: dev_t,
    pub st_ino: ino_t,
    pub st_mode: mode_t,
    pub st_nlink: u16,
    pub st_uid: uid_t,
    pub st_gid: gid_t,
    pub st_rdev: dev_t,
    pub st_size: off_t,
    pub st_atime: time_t,
    pub st_spare1: c_int,
    pub st_mtime: time_t,
    pub st_spare2: c_int,
    pub st_ctime: time_t,
    pub st_spare3: c_int,
    pub st_blksize: c_long,
    pub st_blocks: c_long,
    pub st_spare4: [c_long; 2],
}

/// A point in time: seconds and microseconds.
#[allow(non_camel_case_types)]
pub struct timeval {
    pub tv_sec: time_t,
    pub tv_usec: c_long,
}

/// A time-zone description.
#[allow(non_camel_case_types)]
pub struct timezone {
    pub tz_minuteswest: c_int,
    pub tz_dsttime: c_int,
}

/// One directory entry as the kernel reports it.
#[allow(non_camel_case_types)]
pub struct dirent {
    pub d_ino: ino_t,
    pub d_reclen: u16,
    pub d_type: u8,
    pub d_namlen: u8,
    pub d_name: [u8; 256],
}

// The virtual-memory service and process control of the trap
// interface.

/// The two states agree on everything outside the virtual-memory
/// service: only the allocation cursor and the region table may differ.
pub open spec fn vm_fields_only(a: Kernel, b: Kernel) -> bool {
    b == (Kernel { next_addr: b.next_addr, regions: b.regions, ..a })
}

/// The status code the anywhere-mapping allocation returns: rejection
/// of fixed mappings and of empty requests, injected failure or
/// genuine exhaustion of the address space, or success.
pub open spec fn vm_allocate_code(k: Kernel, size: usize, anywhere: bool) -> i32 {
    if !anywhere || size == 0 {
        KERN_INVALID_ARGUMENT
    } else if k.vm_fail || k.next_addr + page_round(size as int) > usize::MAX {
        KERN_NO_SPACE
    } else {
        KERN_SUCCESS
    }
}

/// True when the anywhere-mapping allocation succeeds.
pub open spec fn vm_allocate_ok(k: Kernel, size: usize, anywhere: bool) -> bool {
    vm_allocate_code(k, size, anywhere) == KERN_SUCCESS
}

/// The status code the unmapping call returns: success exactly when
/// the rounded request names a currently mapped region.
pub open spec fn vm_deallocate_code(k: Kernel, addr: usize, size: usize) -> i32 {
    if size == 0 || size > usize::MAX - 4095 {
        KERN_INVALID_ARGUMENT
    } else if k.has_region(addr, page_round(size as int) as usize) {
        KERN_SUCCESS
    } else {
        KERN_INVALID_ADDRESS
    }
}

/// True when the unmapping call succeeds.
pub open spec fn vm_deallocate_ok(k: Kernel, addr: usize, size: usize) -> bool {
    vm_deallocate_code(k, addr, size) == KERN_SUCCESS
}

/// Requests `size` bytes from the kernel's anywhere-mapping
/// virtual-memory service. The kernel rounds the request up to whole
/// pages itself, maps a fresh page-aligned region, and returns its base
/// address. The region is zero-filled, because its addresses were never
/// handed out before.
pub fn sys_vm_allocate(k: &mut Kernel, size: usize, anywhere: bool) -> (r: Result<
    usize,
    KernelStatus,
>)
    requires
        old(k).wf(),
        old(k).live(),
    ensures
        final(k).wf(),
        final(k).live(),
        vm_fields_only(*old(k), *final(k)),
        r is Ok <==> vm_allocate_ok(*old(k), size, anywhere),
        r is Err ==> *final(k) == *old(k) && r == Err::<usize, KernelStatus>((KernelStatus {
            raw: vm_allocate_code(*old(k), size, anywhere),
            kind: status_kind_of(vm_allocate_code(*old(k), size, anywhere)),
        })),
        r is Ok ==> {
            &&& r == Ok::<usize, KernelStatus>(old(k).next_addr)
            &&& final(k).next_addr == old(k).next_addr + page_round(size as int)
            &&& final(k).regions@ == old(k).regions@.push(MemoryRegion {
                base: old(k).next_addr,
                len: page_round(size as int) as usize,
            })
        },
{
    if !anywhere || size == 0 {
        return Err(KernelStatus::from_code(KERN_INVALID_ARGUMENT));
    }
    proof {
        crate::kernel::lemma_page_round_properties(size as int);
    }
    if k.vm_fail || size > usize::MAX - 4095 {
        return Err(KernelStatus::from_code(KERN_NO_SPACE));
    }
    let rounded = ((size + 4095) / 4096) * 4096;
    if rounded > usize::MAX - k.next_addr {
        return Err(KernelStatus::from_code(KERN_NO_SPACE));
    }
    let base = k.next_addr;
    k.regions.push(MemoryRegion { base, len: rounded });
    k.next_addr = base + rounded;
    Ok(base)
}

/// Unmaps the region previously returned by [`sys_vm_allocate`]. The
/// kernel rounds the length the same way the allocation did; the call
/// succeeds exactly when the rounded request names a currently mapped
/// region, which it then removes.
pub fn sys_vm_deallocate(k: &mut Kernel, addr: usize, size: usize) -> (r: Result<
    (),
    KernelStatus,
>)
    requires
        old(k).wf(),
        old(k).live(),
    ensures
        final(k).wf(),
        final(k).live(),
        vm_fields_only(*old(k), *final(k)),
        final(k).next_addr == old(k).next_addr,
        r is Ok <==> vm_deallocate_ok(*old(k), addr, size),
        r is Err ==> *final(k) == *old(k) && r == Err::<(), KernelStatus>((KernelStatus {
            raw: vm_deallocate_code(*old(k), addr, size),
            kind: status_kind_of(vm_deallocate_code(*old(k), addr, size)),
        })),
        r is Ok ==> exists|i: int|
            0 <= i < old(k).regions@.len() && (#[trigger] old(k).regions@[i]) == (MemoryRegion {
                base: addr,
                len: page_round(size as int) as usize,
            }) && final(k).regions@ == old(k).regions@.remove(i),
{
    if size == 0 || size > usize::MAX - 4095 {
        return Err(KernelStatus::from_code(KERN_INVALID_ARGUMENT));
    }
    proof {
        crate::kernel::lemma_page_round_properties(size as int);
    }
    let rounded = ((size + 4095) / 4096) * 4096;
    let ghost k0 = *k;
    let mut i: usize = 0;
    while i < k.regions.len()
        invariant
            *k == k0,
            k0 == *old(k),
            k0.wf(),
            k0.live(),
            i <= k.regions@.len(),
            rounded == page_round(size as int),
            forall|j: int|
                0 <= j < i ==> (#[trigger] k.regions@[j]) != (MemoryRegion {
                    base: addr,
                    len: rounded,
                }),
        decreases k.regions@.len() - i,
    {
        if k.regions[i].base == addr && k.regions[i].len == rounded {
            proof {
                assert(k0.regions@[i as int] == (MemoryRegion { base: addr, len: rounded }));
            }
            k.regions.remove(i);
            proof {
                assert forall|j: int|
                    0 <= j < k.regions@.len() implies (#[trigger] k.regions@[j]).wf()
                    && k.regions@[j].base + k.regions@[j].len <= k.next_addr by {
                    if j < i {
                        assert(k.regions@[j] == k0.regions@[j]);
                    } else {
                        assert(k.regions@[j] == k0.regions@[j + 1]);
                    }
                }
            }
            return Ok(());
        }
        i = i + 1;
    }
    proof {
        assert(!k0.has_region(addr, rounded));
    }
    Err(KernelStatus::from_code(KERN_INVALID_ADDRESS))
}

// The byte-stream and file service of the trap interface.

/// The number of bytes one byte-stream write of `len` bytes transfers
/// to a console stream: all of them, up to the kernel's transfer cap.
pub open spec fn write_count(k: Kernel, len: int) -> int {
    if len <= k.write_cap {
        len
    } else {
        k.write_cap as int
    }
}

/// The number of bytes a write of `len` bytes transfers to the open
/// file `fd`: the console count, further limited so the file position
/// stays representable.
pub open spec fn file_write_count(k: Kernel, fd: i32, len: int) -> int {
    let p = k.fds@[k.fd_slot(fd)].pos;
    if write_count(k, len) <= usize::MAX - p {
        write_count(k, len)
    } else {
        usize::MAX - p
    }
}

/// How many bytes a read of at most `max` bytes returns from a stream
/// of length `len` standing at position `pos`.
pub open spec fn read_count(len: int, pos: int, max: int) -> int {
    if pos >= len {
        0
    } else if max <= len - pos {
        max
    } else {
        len - pos
    }
}

/// True when `fd` is open for writing.
pub open spec fn fd_writable(k: Kernel, fd: i32) -> bool {
    k.has_fd(fd) && k.fds@[k.fd_slot(fd)].writable
}

/// True when `fd` is open for reading.
pub open spec fn fd_readable(k: Kernel, fd: i32) -> bool {
    k.has_fd(fd) && k.fds@[k.fd_slot(fd)].readable
}

/// How a write of `data` to the open file `fd` changes the kernel: the
/// transferred prefix of `data` lands in the file at its position, the
/// position advances by the transfer count, and nothing else changes.
pub open spec fn file_write_post(pre: Kernel, post: Kernel, fd: i32, data: Seq<u8>) -> bool {
    let s = pre.fd_slot(fd);
    let nd = pre.fds@[s].node as int;
    let p = pre.fds@[s].pos;
    let n = file_write_count(pre, fd, data.len() as int);
    &&& post.files@.len() == pre.files@.len()
    &&& post.files@[nd].data@ == write_bytes_at(pre.files@[nd].data@, p as int, data.subrange(0, n))
    &&& post.files@[nd].path == pre.files@[nd].path
    &&& forall|j: int| 0 <= j < pre.files@.len() && j != nd ==> post.files@[j] == pre.files@[j]
    &&& post.fds@ == pre.fds@.update(s, (OpenFile { pos: (p + n) as usize, ..pre.fds@[s] }))
    &&& post == (Kernel { files: post.files, fds: post.fds, ..pre })
}

/// How writing the whole of `bytes` to the open file `fd` changes the
/// kernel, whatever the partial transfers along the way: `bytes` lands
/// in the file at the descriptor's position, the position advances by
/// its length, and nothing else changes.
pub open spec fn file_wrote_exactly(pre: Kernel, post: Kernel, fd: i32, bytes: Seq<u8>) -> bool {
    let s = pre.fd_slot(fd);
    let nd = pre.fds@[s].node as int;
    let p = pre.fds@[s].pos;
    &&& post.files@.len() == pre.files@.len()
    &&& post.files@[nd].data@ == write_bytes_at(pre.files@[nd].data@, p as int, bytes)
    &&& post.files@[nd].path == pre.files@[nd].path
    &&& forall|j: int| 0 <= j < pre.files@.len() && j != nd ==> post.files@[j] == pre.files@[j]
    &&& post.fds@.len() == pre.fds@.len()
    &&& post.fds@[s] == (OpenFile { pos: (p + bytes.len()) as usize, ..pre.fds@[s] })
    &&& forall|j: int| 0 <= j < pre.fds@.len() && j != s ==> post.fds@[j] == pre.fds@[j]
    &&& post == (Kernel { files: post.files, fds: post.fds, ..pre })
}

/// The bytes a read of at most `max` bytes returns from the open file
/// `fd`.
pub open spec fn file_read_result(pre: Kernel, fd: i32, max: int) -> Seq<u8> {
    let s = pre.fd_slot(fd);
    let nd = pre.fds@[s].node as int;
    let p = pre.fds@[s].pos;
    let flen = pre.files@[nd].data@.len() as int;
    let n = read_count(flen, p as int, max);
    if p as int <= flen {
        pre.files@[nd].data@.subrange(p as int, p + n)
    } else {
        Seq::<u8>::empty()
    }
}

/// How a read from the open file `fd` changes the kernel: the position
/// advances by the number of bytes read, and nothing else changes.
pub open spec fn file_read_post(pre: Kernel, post: Kernel, fd: i32, max: int) -> bool {
    let s = pre.fd_slot(fd);
    let nd = pre.fds@[s].node as int;
    let p = pre.fds@[s].pos;
    let flen = pre.files@[nd].data@.len() as int;
    let n = read_count(flen, p as int, max);
    &&& post.fds@ == pre.fds@.update(s, (OpenFile { pos: (p + n) as usize, ..pre.fds@[s] }))
    &&& post == (Kernel { fds: post.fds, ..pre })
}

/// Writes up to `data.len()` bytes to the stream or open file named by
/// `fd` and returns how many bytes were transferred: the pass-through,
/// possibly partial, write primitive of the trap interface.
pub fn sys_write(k: &mut Kernel, fd: i32, data: &[u8]) -> (r: Result<usize, i32>)
    requires
        old(k).wf(),
        old(k).live(),
    ensures
        final(k).wf(),
        final(k).live(),
        fd == STDOUT_FILENO ==> {
            let n = write_count(*old(k), data@.len() as int);
            &&& r == Ok::<usize, i32>(n as usize)
            &&& final(k).stdout_data@ == old(k).stdout_data@ + data@.subrange(0, n)
            &&& *final(k) == (Kernel { stdout_data: final(k).stdout_data, ..*old(k) })
        },
        fd == STDERR_FILENO ==> {
            let n = write_count(*old(k), data@.len() as int);
            &&& r == Ok::<usize, i32>(n as usize)
            &&& final(k).stderr_data@ == old(k).stderr_data@ + data@.subrange(0, n)
            &&& *final(k) == (Kernel { stderr_data: final(k).stderr_data, ..*old(k) })
        },
        fd != STDOUT_FILENO && fd != STDERR_FILENO && fd_writable(*old(k), fd) ==> {
            &&& r == Ok::<usize, i32>(file_write_count(*old(k), fd, data@.len() as int) as usize)
            &&& file_write_post(*old(k), *final(k), fd, data@)
        },
        fd != STDOUT_FILENO && fd != STDERR_FILENO && !fd_writable(*old(k), fd) ==> r
            == Err::<usize, i32>(EBADF) && *final(k) == *old(k),
{
    let len = data.len();
    let n0 = if len <= k.write_cap {
        len
    } else {
        k.write_cap
    };
    if fd == STDOUT_FILENO {
        crate::kernel::append_prefix(&mut k.stdout_data, data, n0);
        return Ok(n0);
    }
    if fd == STDERR_FILENO {
        crate::kernel::append_prefix(&mut k.stderr_data, data, n0);
        return Ok(n0);
    }
    let ghost k0 = *k;
    let mut i: usize = 0;
    while i < k.fds.len()
        invariant
            *k == k0,
            k0 == *old(k),
            k0.wf(),
            k0.live(),
            i <= k.fds@.len(),
            n0 == write_count(k0, data@.len() as int),
            n0 <= data@.len(),
            forall|j: int| 0 <= j < i ==> (#[trigger] k.fds@[j].fd) != fd,
        decreases k.fds@.len() - i,
    {
        if k.fds[i].fd == fd {
            proof {
                assert(k0.has_fd(fd));
                let s = k0.fd_slot(fd);
                assert(0 <= s < k0.fds@.len() && k0.fds@[s].fd == fd);
                assert(s == i as int);
            }
            let entry = k.fds[i];
            if !entry.writable {
                return Err(EBADF);
            }
            let n1 = if n0 <= usize::MAX - entry.pos {
                n0
            } else {
                usize::MAX - entry.pos
            };
            crate::kernel::write_into(&mut k.files[entry.node].data, entry.pos, data, n1);
            k.fds.set(i, OpenFile { pos: entry.pos + n1, ..entry });
            proof {
                assert(final(k).fds@ == k0.fds@.update(
                    i as int,
                    (OpenFile { pos: (entry.pos + n1) as usize, ..entry }),
                ));
            }
            return Ok(n1);
        }
        i = i + 1;
    }
    proof {
        assert(!k0.has_fd(fd));
    }
    Err(EBADF)
}

/// Reads up to `max` bytes from the stream or open file named by `fd`,
/// returning the bytes read; an empty result means end of input.
pub fn sys_read(k: &mut Kernel, fd: i32, max: usize) -> (r: Result<Vec<u8>, i32>)
    requires
        old(k).wf(),
        old(k).live(),
    ensures
        final(k).wf(),
        final(k).live(),
        fd == STDIN_FILENO ==> {
            let p = old(k).stdin_pos;
            let n = read_count(old(k).stdin_data@.len() as int, p as int, max as int);
            &&& r matches Ok(v) && v@ == old(k).stdin_data@.subrange(p as int, p + n)
            &&& final(k).stdin_pos == p + n
            &&& *final(k) == (Kernel { stdin_pos: final(k).stdin_pos, ..*old(k) })
        },
        fd != STDIN_FILENO && fd_readable(*old(k), fd) ==> {
            &&& r matches Ok(v) && v@ == file_read_result(*old(k), fd, max as int)
            &&& file_read_post(*old(k), *final(k), fd, max as int)
        },
        fd != STDIN_FILENO && !fd_readable(*old(k), fd) ==> r == Err::<Vec<u8>, i32>(EBADF)
            && *final(k) == *old(k),
{
    if fd == STDIN_FILENO {
        let p = k.stdin_pos;
        let len = k.stdin_data.len();
        let n = if p >= len {
            0
        } else if max <= len - p {
            max
        } else {
            len - p
        };
        let out = crate::kernel::copy_range(&k.stdin_data, p, n);
        k.stdin_pos = p + n;
        return Ok(out);
    }
    let ghost k0 = *k;
    let mut i: usize = 0;
    while i < k.fds.len()
        invariant
            *k == k0,
            k0 == *old(k),
            k0.wf(),
            k0.live(),
            i <= k.fds@.len(),
            forall|j: int| 0 <= j < i ==> (#[trigger] k.fds@[j].fd) != fd,
        decreases k.fds@.len() - i,
    {
        if k.fds[i].fd == fd {
            proof {
                assert(k0.has_fd(fd));
                let s = k0.fd_slot(fd);
                assert(0 <= s < k0.fds@.len() && k0.fds@[s].fd == fd);
                assert(s == i as int);
            }
            let entry = k.fds[i];
            if !entry.readable {
                return Err(EBADF);
            }
            let flen = k.files[entry.node].data.len();
            let n = if entry.pos >= flen {
                0
            } else if max <= flen - entry.pos {
                max
            } else {
                flen - entry.pos
            };
            let start = if entry.pos <= flen {
                entry.pos
            } else {
                flen
            };
            let out = crate::kernel::copy_range(&k.files[entry.node].data, start, n);
            k.fds.set(i, OpenFile { pos: entry.pos + n, ..entry });
            return Ok(out);
        }
        i = i + 1;
    }
    proof {
        assert(!k0.has_fd(fd));
    }
    Err(EBADF)
}

/// The name a NUL-terminated path names: the bytes before the first
/// NUL.
pub open spec fn path_name(path: Seq<u8>) -> Seq<u8> {
    path.subrange(0, crate::kernel::nul_index(path))
}

/// The error `open` returns for this request, or zero when it succeeds:
/// a malformed access mode or an unterminated path is invalid, an
/// exhausted descriptor space refuses, an exclusive creation of an
/// existing file and a plain open of a missing one fail.
pub open spec fn open_errno(k: Kernel, path: Seq<u8>, flags: i32) -> i32 {
    if flags & 3 == 3 {
        EINVAL
    } else if crate::kernel::nul_index(path) == path.len() {
        EINVAL
    } else if k.next_fd == i32::MAX {
        EMFILE
    } else if k.has_file(path_name(path)) {
        if flags & O_CREAT != 0 && flags & O_EXCL != 0 {
            EEXIST
        } else {
            0
        }
    } else {
        if flags & O_CREAT != 0 {
            0
        } else {
            ENOENT
        }
    }
}

/// How a successful `open` changes the kernel: a fresh descriptor under
/// the next number, positioned at the start of the named file, which is
/// created when missing and emptied when truncation of a writable open
/// asks for it; nothing else changes.
pub open spec fn open_ok_post(pre: Kernel, post: Kernel, path: Seq<u8>, flags: i32) -> bool {
    let name = path_name(path);
    let nd = if pre.has_file(name) {
        pre.file_index(name)
    } else {
        pre.files@.len() as int
    };
    &&& post.next_fd == pre.next_fd + 1
    &&& post.fds@ == pre.fds@.push(
        OpenFile {
            fd: pre.next_fd,
            node: nd as usize,
            pos: 0,
            readable: flags & 3 != 1,
            writable: flags & 3 != 0,
        },
    )
    &&& pre.has_file(name) ==> {
        &&& post.files@.len() == pre.files@.len()
        &&& post.files@[nd].path == pre.files@[nd].path
        &&& post.files@[nd].data@ == if flags & O_TRUNC != 0 && flags & 3 != 0 {
            Seq::<u8>::empty()
        } else {
            pre.files@[nd].data@
        }
        &&& forall|j: int| 0 <= j < pre.files@.len() && j != nd ==> post.files@[j] == pre.files@[j]
    }
    &&& !pre.has_file(name) ==> {
        &&& post.files@.len() == pre.files@.len() + 1
        &&& post.files@[nd].path@ == name
        &&& post.files@[nd].data@ == Seq::<u8>::empty()
        &&& forall|j: int| 0 <= j < pre.files@.len() ==> post.files@[j] == pre.files@[j]
    }
    &&& post == (Kernel { files: post.files, fds: post.fds, next_fd: post.next_fd, ..pre })
}

/// Finds the file with the given name.
fn find_file(k: &Kernel, name: &[u8]) -> (r: Option<usize>)
    ensures
        match r {
            Some(i) => i < k.files@.len() && k.files@[i as int].path@ == name@ && k.has_file(
                name@,
            ),
            None => !k.has_file(name@),
        },
{
    let mut i: usize = 0;
    while i < k.files.len()
        invariant
            i <= k.files@.len(),
            forall|j: int| 0 <= j < i ==> (#[trigger] k.files@[j].path@) != name@,
        decreases k.files@.len() - i,
    {
        if crate::kernel::bytes_equal(k.files[i].path.as_slice(), name) {
            return Some(i);
        }
        i = i + 1;
    }
    None
}

/// Opens the file named by the NUL-terminated `path` under the given
/// flags and returns a fresh descriptor. The access mode is the low two
/// flag bits; `O_CREAT` creates a missing file, `O_EXCL` refuses an
/// existing one, and `O_TRUNC` empties a file opened for writing. The
/// permission argument is accepted but not differentiated: the model
/// has no permission system.
pub fn sys_open(k: &mut Kernel, path: &[u8], flags: c_int, _mode: mode_t) -> (r: Result<i32, i32>)
    requires
        old(k).wf(),
        old(k).live(),
    ensures
        final(k).wf(),
        final(k).live(),
        open_errno(*old(k), path@, flags) != 0 ==> r == Err::<i32, i32>(open_errno(
            *old(k),
            path@,
            flags,
        )) && *final(k) == *old(k),
        open_errno(*old(k), path@, flags) == 0 ==> r == Ok::<i32, i32>(old(k).next_fd)
            && open_ok_post(*old(k), *final(k), path@, flags),
{
    let acc = flags & 3;
    if acc == 3 {
        return Err(EINVAL);
    }
    let nul = crate::kernel::find_nul(path);
    if nul == path.len() {
        return Err(EINVAL);
    }
    if k.next_fd == i32::MAX {
        return Err(EMFILE);
    }
    proof {
        crate::kernel::lemma_nul_index(path@);
    }
    let name = vstd::slice::slice_subrange(path, 0, nul);
    let idx = match find_file(k, name) {
        Some(idx) => {
            if flags & O_CREAT != 0 && flags & O_EXCL != 0 {
                return Err(EEXIST);
            }
            if flags & O_TRUNC != 0 && acc != 0 {
                let node = &mut k.files[idx];
                node.data = Vec::new();
            }
            proof {
                let s = k.file_index(name@);
                assert(0 <= s < k.files@.len() && k.files@[s].path@ == name@);
                assert(s == idx as int);
            }
            idx
        },
        None => {
            if flags & O_CREAT == 0 {
                return Err(ENOENT);
            }
            let idx = k.files.len();
            k.files.push(
                FileNode { path: vstd::slice::slice_to_vec(name), data: Vec::new() },
            );
            idx
        },
    };
    let fd = k.next_fd;
    k.fds.push(OpenFile { fd, node: idx, pos: 0, readable: acc != 1, writable: acc != 0 });
    k.next_fd = fd + 1;
    Ok(fd)
}

/// Closes an open descriptor, removing it from the descriptor table.
pub fn sys_close(k: &mut Kernel, fd: i32) -> (r: Result<(), i32>)
    requires
        old(k).wf(),
        old(k).live(),
    ensures
        final(k).wf(),
        final(k).live(),
        r is Ok <==> old(k).has_fd(fd),
        old(k).has_fd(fd) ==> final(k).fds@ == old(k).fds@.remove(old(k).fd_slot(fd)) && *final(k)
            == (Kernel { fds: final(k).fds, ..*old(k) }),
        !old(k).has_fd(fd) ==> r == Err::<(), i32>(EBADF) && *final(k) == *old(k),
{
    let ghost k0 = *k;
    let mut i: usize = 0;
    while i < k.fds.len()
        invariant
            *k == k0,
            k0 == *old(k),
            k0.wf(),
            k0.live(),
            i <= k.fds@.len(),
            forall|j: int| 0 <= j < i ==> (#[trigger] k.fds@[j].fd) != fd,
        decreases k.fds@.len() - i,
    {
        if k.fds[i].fd == fd {
            proof {
                assert(k0.has_fd(fd));
                let s = k0.fd_slot(fd);
                assert(0 <= s < k0.fds@.len() && k0.fds@[s].fd == fd);
                assert(s == i as int);
            }
            k.fds.remove(i);
            proof {
                assert forall|a: int|
                    0 <= a < k.fds@.len() implies (#[trigger] k.fds@[a]).node
                    < k.files@.len() && 3 <= k.fds@[a].fd < k.next_fd by {
                    if a < i {
                        assert(k.fds@[a] == k0.fds@[a]);
                    } else {
                        assert(k.fds@[a] == k0.fds@[a + 1]);
                    }
                }
                assert forall|a: int, b: int|
                    0 <= a < b < k.fds@.len() implies (#[trigger] k.fds@[a].fd) != (
                #[trigger] k.fds@[b].fd) by {
                    let a0 = if a < i {
                        a
                    } else {
                        a + 1
                    };
                    let b0 = if b < i {
                        b
                    } else {
                        b + 1
                    };
                    assert(k.fds@[a] == k0.fds@[a0]);
                    assert(k.fds@[b] == k0.fds@[b0]);
                }
            }
            return Ok(());
        }
        i = i + 1;
    }
    proof {
        assert(!k0.has_fd(fd));
    }
    Err(EBADF)
}

/// Ends the process with the given status code: the one kernel call
/// that never returns control to its caller. Afterwards the process is
/// no longer live and no further trap may be issued.
pub fn sys_exit(k: &mut Kernel, code: i32)
    requires
        old(k).wf(),
        old(k).live(),
    ensures
        final(k).wf(),
        final(k).exit_status == Some(code),
        *final(k) == (Kernel { exit_status: Some(code), ..*old(k) }),
{
    k.exit_status = Some(code);
}

/// The identifier of the calling process.
#[allow(non_snake_case)]
pub fn sys_getpid(k: &Kernel) -> (r: pid_t)
    ensures
        r == k.pid,
{
    k.pid
}

/// Resource-usage accounting as the kernel reports it.
#[allow(non_camel_case_types)]
pub struct rusage {
    pub ru_utime: timeval,
    pub ru_stime: timeval,
    pub ru_maxrss: c_long,
    pub ru_ixrss: c_long,
    pub ru_idrss: c_long,
    pub ru_isrss: c_long,
    pub ru_minflt: c_long,
    pub ru_majflt: c_long,
    pub ru_nswap: c_long,
    pub ru_inblock: c_long,
    pub ru_oublock: c_long,
    pub ru_msgsnd: c_long,
    pub ru_msgrcv: c_long,
    pub ru_nsignals: c_long,
    pub ru_nvcsw: c_long,
    pub ru_nivcsw: c_long,
}

} // verus!
