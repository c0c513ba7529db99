//! Console and file input/output over the kernel's byte-stream
//! service: thin typed streams, an error type that classifies the
//! kernel's error numbers, and the retry loops that turn the kernel's
//! partial transfers into all-or-error operations.

use vstd::prelude::*;
use vstd::string::StringSliceAdditionalSpecFns;

use crate::kernel::Kernel;
use crate::kernel::OpenFile;
use crate::sys;

verus! {

/// A sequence read in two consecutive pieces is the one subrange that
/// spans both.
proof fn lemma_subrange_extend(s: Seq<u8>, p0: int, got: int, cv: Seq<u8>, out: Seq<u8>)
    requires
        0 <= p0,
        0 <= got,
        p0 + got + cv.len() <= s.len(),
        out == s.subrange(p0, p0 + got) + cv,
        cv == s.subrange(p0 + got, p0 + got + cv.len() as int),
    ensures
        out == s.subrange(p0, p0 + out.len() as int),
{
    assert(out =~= s.subrange(p0, p0 + out.len() as int));
}

/// Standard output handle.
pub struct Stdout;

/// Standard error handle.
pub struct Stderr;

/// Standard input handle.
pub struct Stdin;

/// The kinds of input/output failure.
#[derive(Debug, Clone, Copy, PartialEq, Eq, Structural)]
pub enum IoErrorKind {
    NotFound,
    PermissionDenied,
    ConnectionRefused,
    ConnectionReset,
    ConnectionAborted,
    NotConnected,
    AddrInUse,
    AddrNotAvailable,
    BrokenPipe,
    AlreadyExists,
    WouldBlock,
    InvalidInput,
    InvalidData,
    TimedOut,
    WriteZero,
    Interrupted,
    Other,
    UnexpectedEof,
}

/// Error type for input/output operations.
#[derive(Debug, Clone, Copy, PartialEq, Eq, Structural)]
pub struct IoError {
    pub kind: IoErrorKind,
}

/// The kind a kernel error number is classified into; numbers naming no
/// listed condition fall into `Other`.
pub open spec fn kind_of_errno(errno: i32) -> IoErrorKind {
    if errno == sys::ENOENT {
        IoErrorKind::NotFound
    } else if errno == sys::EPERM || errno == sys::EACCES {
        IoErrorKind::PermissionDenied
    } else if errno == sys::EPIPE {
        IoErrorKind::BrokenPipe
    } else if errno == sys::EEXIST {
        IoErrorKind::AlreadyExists
    } else if errno == sys::EAGAIN {
        IoErrorKind::WouldBlock
    } else if errno == sys::EINTR {
        IoErrorKind::Interrupted
    } else if errno == sys::EINVAL {
        IoErrorKind::InvalidInput
    } else {
        IoErrorKind::Other
    }
}

impl From<i32> for IoError {
    /// Classifies a kernel error number.
    fn from(errno: i32) -> (r: IoError) {
        let kind = if errno == sys::ENOENT {
            IoErrorKind::NotFound
        } else if errno == sys::EPERM || errno == sys::EACCES {
            IoErrorKind::PermissionDenied
        } else if errno == sys::EPIPE {
            IoErrorKind::BrokenPipe
        } else if errno == sys::EEXIST {
            IoErrorKind::AlreadyExists
        } else if errno == sys::EAGAIN {
            IoErrorKind::WouldBlock
        } else if errno == sys::EINTR {
            IoErrorKind::Interrupted
        } else if errno == sys::EINVAL {
            IoErrorKind::InvalidInput
        } else {
            IoErrorKind::Other
        };
        IoError { kind }
    }
}

impl vstd::std_specs::convert::FromSpecImpl<i32> for IoError {
    open spec fn obeys_from_spec() -> bool {
        true
    }

    open spec fn from_spec(errno: i32) -> IoError {
        IoError { kind: kind_of_errno(errno) }
    }
}

/// Output streams: byte sinks over the kernel's write primitive.
pub trait Write {
    /// Writes from `buf`, returning how many bytes the sink accepted.
    fn write(&mut self, k: &mut Kernel, buf: &[u8]) -> (r: Result<usize, IoError>)
        requires
            old(k).wf(),
            old(k).live(),
        ensures
            final(k).wf(),
            final(k).live(),
            r matches Ok(n) ==> n <= buf@.len(),
    ;

    /// Writes all of `buf`, retrying partial transfers, or reports how
    /// it failed.
    fn write_all(&mut self, k: &mut Kernel, buf: &[u8]) -> (r: Result<(), IoError>)
        requires
            old(k).wf(),
            old(k).live(),
        ensures
            final(k).wf(),
            final(k).live(),
    ;

    /// Flushes buffered bytes; these sinks keep none.
    fn flush(&mut self, k: &mut Kernel) -> (r: Result<(), IoError>)
        requires
            old(k).wf(),
            old(k).live(),
        ensures
            final(k).wf(),
            final(k).live(),
    ;
}

/// Input streams: byte sources over the kernel's read primitive.
pub trait Read {
    /// Reads at most `max` bytes, returning the bytes read; an empty
    /// result means end of input.
    fn read(&mut self, k: &mut Kernel, max: usize) -> (r: Result<Vec<u8>, IoError>)
        requires
            old(k).wf(),
            old(k).live(),
        ensures
            final(k).wf(),
            final(k).live(),
            r matches Ok(v) ==> v@.len() <= max,
    ;

    /// Reads exactly `n` bytes, retrying partial transfers, or reports
    /// that the input ended early.
    fn read_exact(&mut self, k: &mut Kernel, n: usize) -> (r: Result<Vec<u8>, IoError>)
        requires
            old(k).wf(),
            old(k).live(),
        ensures
            final(k).wf(),
            final(k).live(),
            r matches Ok(v) ==> v@.len() == n,
    ;
}

impl Write for Stdout {
    /// One kernel write to the standard output stream: transfers the
    /// kernel's write count, never fails.
    fn write(&mut self, k: &mut Kernel, buf: &[u8]) -> (r: Result<usize, IoError>)
        ensures
            ({
                let n = sys::write_count(*old(k), buf@.len() as int);
                &&& r == Ok::<usize, IoError>(n as usize)
                &&& final(k).stdout_data@ == old(k).stdout_data@ + buf@.subrange(0, n)
                &&& *final(k) == (Kernel { stdout_data: final(k).stdout_data, ..*old(k) })
            }),
    {
        match sys::sys_write(k, sys::STDOUT_FILENO, buf) {
            Ok(n) => Ok(n),
            Err(_) => Err(IoError { kind: IoErrorKind::Other }),
        }
    }

    /// Writes all of `buf` to standard output. Succeeds exactly when
    /// the sink accepts bytes at all (or nothing needs writing); a sink
    /// that accepts nothing yields `WriteZero` after a proper prefix.
    fn write_all(&mut self, k: &mut Kernel, buf: &[u8]) -> (r: Result<(), IoError>)
        ensures
            r is Ok <==> (old(k).write_cap > 0 || buf@.len() == 0),
            r is Ok ==> final(k).stdout_data@ == old(k).stdout_data@ + buf@,
            r matches Err(e) ==> e.kind == IoErrorKind::WriteZero && final(k).stdout_data@ == old(
                k,
            ).stdout_data@,
            *final(k) == (Kernel { stdout_data: final(k).stdout_data, ..*old(k) }),
    {
        let ghost k0 = *k;
        let mut written: usize = 0;
        while written < buf.len()
            invariant
                k0 == *old(k),
                k0.wf(),
                k0.live(),
                written <= buf@.len(),
                k.stdout_data@ == k0.stdout_data@ + buf@.subrange(0, written as int),
                *k == (Kernel { stdout_data: k.stdout_data, ..k0 }),
                written > 0 ==> k0.write_cap > 0,
            decreases buf@.len() - written,
        {
            let rest = vstd::slice::slice_subrange(buf, written, buf.len());
            match self.write(k, rest) {
                Ok(n) => {
                    if n == 0 {
                        proof {
                            assert(k.stdout_data@ =~= k0.stdout_data@);
                        }
                        return Err(IoError { kind: IoErrorKind::WriteZero });
                    }
                    written = written + n;
                    proof {
                        assert(k.stdout_data@ =~= k0.stdout_data@ + buf@.subrange(
                            0,
                            written as int,
                        ));
                    }
                },
                Err(e) => {
                    return Err(e);
                },
            }
        }
        proof {
            assert(buf@.subrange(0, buf@.len() as int) =~= buf@);
        }
        Ok(())
    }

    /// Nothing is buffered, so flushing has nothing to do.
    fn flush(&mut self, k: &mut Kernel) -> (r: Result<(), IoError>)
        ensures
            r is Ok,
            *final(k) == *old(k),
    {
        Ok(())
    }
}

impl Write for Stderr {
    /// One kernel write to the standard error stream: transfers the
    /// kernel's write count, never fails.
    fn write(&mut self, k: &mut Kernel, buf: &[u8]) -> (r: Result<usize, IoError>)
        ensures
            ({
                let n = sys::write_count(*old(k), buf@.len() as int);
                &&& r == Ok::<usize, IoError>(n as usize)
                &&& final(k).stderr_data@ == old(k).stderr_data@ + buf@.subrange(0, n)
                &&& *final(k) == (Kernel { stderr_data: final(k).stderr_data, ..*old(k) })
            }),
    {
        match sys::sys_write(k, sys::STDERR_FILENO, buf) {
            Ok(n) => Ok(n),
            Err(_) => Err(IoError { kind: IoErrorKind::Other }),
        }
    }

    /// Writes all of `buf` to standard error; as for standard output.
    fn write_all(&mut self, k: &mut Kernel, buf: &[u8]) -> (r: Result<(), IoError>)
        ensures
            r is Ok <==> (old(k).write_cap > 0 || buf@.len() == 0),
            r is Ok ==> final(k).stderr_data@ == old(k).stderr_data@ + buf@,
            r matches Err(e) ==> e.kind == IoErrorKind::WriteZero && final(k).stderr_data@ == old(
                k,
            ).stderr_data@,
            *final(k) == (Kernel { stderr_data: final(k).stderr_data, ..*old(k) }),
    {
        let ghost k0 = *k;
        let mut written: usize = 0;
        while written < buf.len()
            invariant
                k0 == *old(k),
                k0.wf(),
                k0.live(),
                written <= buf@.len(),
                k.stderr_data@ == k0.stderr_data@ + buf@.subrange(0, written as int),
                *k == (Kernel { stderr_data: k.stderr_data, ..k0 }),
                written > 0 ==> k0.write_cap > 0,
            decreases buf@.len() - written,
        {
            let rest = vstd::slice::slice_subrange(buf, written, buf.len());
            match self.write(k, rest) {
                Ok(n) => {
                    if n == 0 {
                        proof {
                            assert(k.stderr_data@ =~= k0.stderr_data@);
                        }
                        return Err(IoError { kind: IoErrorKind::WriteZero });
                    }
                    written = written + n;
                    proof {
                        assert(k.stderr_data@ =~= k0.stderr_data@ + buf@.subrange(
                            0,
                            written as int,
                        ));
                    }
                },
                Err(e) => {
                    return Err(e);
                },
            }
        }
        proof {
            assert(buf@.subrange(0, buf@.len() as int) =~= buf@);
        }
        Ok(())
    }

    /// Nothing is buffered, so flushing has nothing to do.
    fn flush(&mut self, k: &mut Kernel) -> (r: Result<(), IoError>)
        ensures
            r is Ok,
            *final(k) == *old(k),
    {
        Ok(())
    }
}

impl Read for Stdin {
    /// One kernel read from the standard input stream: returns the next
    /// bytes, never fails.
    fn read(&mut self, k: &mut Kernel, max: usize) -> (r: Result<Vec<u8>, IoError>)
        ensures
            ({
                let p = old(k).stdin_pos;
                let n = sys::read_count(old(k).stdin_data@.len() as int, p as int, max as int);
                &&& r matches Ok(v) && v@ == old(k).stdin_data@.subrange(p as int, p + n)
                &&& final(k).stdin_pos == p + n
                &&& *final(k) == (Kernel { stdin_pos: final(k).stdin_pos, ..*old(k) })
            }),
    {
        match sys::sys_read(k, sys::STDIN_FILENO, max) {
            Ok(v) => Ok(v),
            Err(_) => Err(IoError { kind: IoErrorKind::Other }),
        }
    }

    /// Reads exactly `n` bytes from standard input; when the input ends
    /// first, consumes what there is and reports `UnexpectedEof`.
    fn read_exact(&mut self, k: &mut Kernel, n: usize) -> (r: Result<Vec<u8>, IoError>)
        ensures
            ({
                let p = old(k).stdin_pos as int;
                let avail = old(k).stdin_data@.len() - p;
                &&& n <= avail ==> {
                    &&& r matches Ok(v) && v@ == old(k).stdin_data@.subrange(p, p + n)
                    &&& final(k).stdin_pos == p + n
                }
                &&& n > avail ==> {
                    &&& r matches Err(e) && e.kind == IoErrorKind::UnexpectedEof
                    &&& final(k).stdin_pos == old(k).stdin_data@.len()
                }
                &&& *final(k) == (Kernel { stdin_pos: final(k).stdin_pos, ..*old(k) })
            }),
    {
        let ghost k0 = *k;
        let ghost p0 = k.stdin_pos as int;
        let mut out: Vec<u8> = Vec::new();
        while out.len() < n
            invariant
                k0 == *old(k),
                p0 == k0.stdin_pos,
                k0.wf(),
                k0.live(),
                k.wf(),
                k.live(),
                out@.len() <= n,
                out@ == k0.stdin_data@.subrange(p0, p0 + out@.len()),
                k.stdin_pos == p0 + out@.len(),
                *k == (Kernel { stdin_pos: k.stdin_pos, ..k0 }),
            decreases n - out@.len(),
        {
            match self.read(k, n - out.len()) {
                Ok(chunk) => {
                    if chunk.len() == 0 {
                        return Err(IoError { kind: IoErrorKind::UnexpectedEof });
                    }
                    let ghost got = out@.len() as int;
                    let ghost cv = chunk@;
                    let mut chunk = chunk;
                    out.append(&mut chunk);
                    proof {
                        assert(out@ == k0.stdin_data@.subrange(p0, p0 + got) + cv);
                        assert(cv == k0.stdin_data@.subrange(p0 + got, p0 + got + cv.len()));
                        assert(k.stdin_data == k0.stdin_data);
                        assert(k.stdin_pos == p0 + out@.len());
                        assert(p0 + out@.len() <= k0.stdin_data@.len());
                        lemma_subrange_extend(k0.stdin_data@, p0, got, cv, out@);
                    }
                },
                Err(e) => {
                    return Err(e);
                },
            }
        }
        Ok(out)
    }
}

/// Get the standard output handle.
pub fn stdout() -> Stdout {
    Stdout
}

/// Get the standard error handle.
pub fn stderr() -> Stderr {
    Stderr
}

/// Get the standard input handle.
pub fn stdin() -> Stdin {
    Stdin
}

impl Stdout {
    /// Writes a string to standard output, whole or not at all.
    pub fn write_str(&mut self, k: &mut Kernel, s: &str) -> (r: Result<(), IoError>)
        requires
            old(k).wf(),
            old(k).live(),
        ensures
            final(k).wf(),
            final(k).live(),
            r is Ok <==> (old(k).write_cap > 0 || s.spec_bytes().len() == 0),
            r is Ok ==> final(k).stdout_data@ == old(k).stdout_data@ + s.spec_bytes(),
            r is Err ==> final(k).stdout_data@ == old(k).stdout_data@,
            *final(k) == (Kernel { stdout_data: final(k).stdout_data, ..*old(k) }),
    {
        self.write_all(k, s.as_bytes())
    }
}

impl Stderr {
    /// Writes a string to standard error, whole or not at all.
    pub fn write_str(&mut self, k: &mut Kernel, s: &str) -> (r: Result<(), IoError>)
        requires
            old(k).wf(),
            old(k).live(),
        ensures
            final(k).wf(),
            final(k).live(),
            r is Ok <==> (old(k).write_cap > 0 || s.spec_bytes().len() == 0),
            r is Ok ==> final(k).stderr_data@ == old(k).stderr_data@ + s.spec_bytes(),
            r is Err ==> final(k).stderr_data@ == old(k).stderr_data@,
            *final(k) == (Kernel { stderr_data: final(k).stderr_data, ..*old(k) }),
    {
        self.write_all(k, s.as_bytes())
    }
}

/// A file handle: an open descriptor on the kernel's file table.
#[derive(Debug)]
pub struct File {
    pub fd: crate::sys::c_int,
}

impl File {
    /// True when this handle names an open descriptor.
    pub open spec fn is_open(self, k: Kernel) -> bool {
        k.has_fd(self.fd)
    }

    /// This handle's slot in the descriptor table.
    pub open spec fn slot(self, k: Kernel) -> int {
        k.fd_slot(self.fd)
    }

    /// The index of the file the handle refers to.
    pub open spec fn node(self, k: Kernel) -> int {
        k.fds@[self.slot(k)].node as int
    }

    /// The handle's read/write position.
    pub open spec fn pos(self, k: Kernel) -> int {
        k.fds@[self.slot(k)].pos as int
    }

    /// The bytes of the file the handle refers to.
    pub open spec fn data(self, k: Kernel) -> Seq<u8> {
        k.files@[self.node(k)].data@
    }

    /// Opens a file. The path is handed to the kernel NUL-terminated,
    /// as the trap interface expects; a failure's error number is
    /// classified into an [`IoError`].
    pub fn open(k: &mut Kernel, path: &str, flags: i32, mode: crate::sys::mode_t) -> (r: Result<
        File,
        IoError,
    >)
        requires
            old(k).wf(),
            old(k).live(),
        ensures
            final(k).wf(),
            final(k).live(),
            ({
                let pb = path.spec_bytes() + seq![0u8];
                let e = sys::open_errno(*old(k), pb, flags);
                &&& e != 0 ==> r == Err::<File, IoError>((IoError { kind: kind_of_errno(e) }))
                    && *final(k) == *old(k)
                &&& e == 0 ==> (r matches Ok(f) && f.fd == old(k).next_fd && sys::open_ok_post(
                    *old(k),
                    *final(k),
                    pb,
                    flags,
                ))
            }),
    {
        let bytes = path.as_bytes();
        let mut path_buf: Vec<u8> = Vec::new();
        crate::kernel::append_prefix(&mut path_buf, bytes, bytes.len());
        path_buf.push(0);
        proof {
            assert(bytes@.subrange(0, bytes@.len() as int) =~= bytes@);
            assert(path_buf@ =~= path.spec_bytes() + seq![0u8]);
        }
        match sys::sys_open(k, path_buf.as_slice(), flags, mode) {
            Ok(fd) => Ok(File { fd }),
            Err(e) => Err(IoError::from(e)),
        }
    }

    /// Creates a file: open for writing only, created when missing,
    /// truncated when present.
    pub fn create(k: &mut Kernel, path: &str) -> (r: Result<File, IoError>)
        requires
            old(k).wf(),
            old(k).live(),
        ensures
            final(k).wf(),
            final(k).live(),
            ({
                let pb = path.spec_bytes() + seq![0u8];
                let fl = sys::O_CREAT | sys::O_WRONLY | sys::O_TRUNC;
                let e = sys::open_errno(*old(k), pb, fl);
                &&& e != 0 ==> r == Err::<File, IoError>((IoError { kind: kind_of_errno(e) }))
                    && *final(k) == *old(k)
                &&& e == 0 ==> (r matches Ok(f) && f.fd == old(k).next_fd && sys::open_ok_post(
                    *old(k),
                    *final(k),
                    pb,
                    fl,
                ))
            }),
    {
        Self::open(k, path, sys::O_CREAT | sys::O_WRONLY | sys::O_TRUNC, 0o666)
    }

    /// Closes the handle's descriptor, consuming the handle. The
    /// runtime this models closes on drop; the model makes the release
    /// explicit. A failure is swallowed, as a drop cannot report one.
    pub fn close(self, k: &mut Kernel)
        requires
            old(k).wf(),
            old(k).live(),
        ensures
            final(k).wf(),
            final(k).live(),
            old(k).has_fd(self.fd) ==> final(k).fds@ == old(k).fds@.remove(old(k).fd_slot(self.fd))
                && *final(k) == (Kernel { fds: final(k).fds, ..*old(k) }),
            !old(k).has_fd(self.fd) ==> *final(k) == *old(k),
    {
        let _ = sys::sys_close(k, self.fd);
    }
}

impl Write for File {
    /// One kernel write at the handle's position: transfers the
    /// kernel's write count. A handle that does not name a writable
    /// open file — including one forged onto a console stream — reports
    /// an error and changes nothing.
    fn write(&mut self, k: &mut Kernel, buf: &[u8]) -> (r: Result<usize, IoError>)
        ensures
            *final(self) == *old(self),
            sys::fd_writable(*old(k), old(self).fd) ==> r == Ok::<usize, IoError>(
                sys::file_write_count(*old(k), old(self).fd, buf@.len() as int) as usize,
            ) && sys::file_write_post(*old(k), *final(k), old(self).fd, buf@),
            !sys::fd_writable(*old(k), old(self).fd) ==> r == Err::<usize, IoError>((IoError {
                kind: IoErrorKind::Other,
            })) && *final(k) == *old(k),
    {
        if self.fd == sys::STDOUT_FILENO || self.fd == sys::STDERR_FILENO {
            return Err(IoError { kind: IoErrorKind::Other });
        }
        match sys::sys_write(k, self.fd, buf) {
            Ok(n) => Ok(n),
            Err(_) => Err(IoError { kind: IoErrorKind::Other }),
        }
    }

    /// Writes all of `buf` at the handle's position, retrying partial
    /// transfers. Succeeds exactly when the kernel accepts bytes at all
    /// and the whole write keeps the position representable; a transfer
    /// that stalls yields `WriteZero` after a proper prefix.
    fn write_all(&mut self, k: &mut Kernel, buf: &[u8]) -> (r: Result<(), IoError>)
        ensures
            *final(self) == *old(self),
            ({
                let fd = old(self).fd;
                let p = old(k).fds@[old(k).fd_slot(fd)].pos;
                &&& buf@.len() == 0 ==> r is Ok && *final(k) == *old(k)
                &&& buf@.len() > 0 && !sys::fd_writable(*old(k), fd) ==> r == Err::<
                    (),
                    IoError,
                >((IoError { kind: IoErrorKind::Other })) && *final(k) == *old(k)
                &&& buf@.len() > 0 && sys::fd_writable(*old(k), fd) ==> {
                    &&& (r is Ok <==> old(k).write_cap > 0 && p + buf@.len() <= usize::MAX)
                    &&& r is Ok ==> sys::file_wrote_exactly(*old(k), *final(k), fd, buf@)
                    &&& r matches Err(e) ==> e.kind == IoErrorKind::WriteZero && exists|m: int|
                        0 <= m < buf@.len() && #[trigger] sys::file_wrote_exactly(
                            *old(k),
                            *final(k),
                            fd,
                            buf@.subrange(0, m),
                        )
                }
            }),
    {
        if buf.len() == 0 {
            return Ok(());
        }
        let fd = self.fd;
        if fd == sys::STDOUT_FILENO || fd == sys::STDERR_FILENO {
            return Err(IoError { kind: IoErrorKind::Other });
        }
        let ghost k0 = *k;
        let ghost f0 = *self;
        let ghost s0 = k0.fd_slot(fd);
        let ghost nd0 = k0.fds@[s0].node as int;
        let ghost p0 = k0.fds@[s0].pos as int;
        let ghost d0 = k0.files@[nd0].data@;
        let mut written: usize = 0;
        while written < buf.len()
            invariant
                k0 == *old(k),
                f0 == *old(self),
                *self == f0,
                fd == f0.fd,
                k0.wf(),
                k0.live(),
                k.wf(),
                k.live(),
                fd != sys::STDOUT_FILENO && fd != sys::STDERR_FILENO,
                written <= buf@.len(),
                buf@.len() > 0,
                !sys::fd_writable(k0, fd) ==> *k == k0 && written == 0,
                sys::fd_writable(k0, fd) ==> {
                    &&& s0 == k0.fd_slot(fd)
                    &&& 0 <= s0 < k0.fds@.len()
                    &&& k0.fds@[s0].fd == fd
                    &&& k0.fds@[s0].writable
                    &&& nd0 == k0.fds@[s0].node as int
                    &&& p0 == k0.fds@[s0].pos as int
                    &&& d0 == k0.files@[nd0].data@
                    &&& p0 + written <= usize::MAX
                    &&& k.fds@.len() == k0.fds@.len()
                    &&& k.fds@[s0] == (OpenFile { pos: (p0 + written) as usize, ..k0.fds@[s0] })
                    &&& forall|j: int| 0 <= j < k0.fds@.len() && j != s0 ==> k.fds@[j] == k0.fds@[j]
                    &&& k.files@.len() == k0.files@.len()
                    &&& k.files@[nd0].path == k0.files@[nd0].path
                    &&& forall|j: int|
                        0 <= j < k0.files@.len() && j != nd0 ==> k.files@[j] == k0.files@[j]
                    &&& ((written == 0 && k.files@[nd0].data@ == d0) || k.files@[nd0].data@
                        == crate::kernel::write_bytes_at(d0, p0, buf@.subrange(0, written as int)))
                    &&& *k == (Kernel { files: k.files, fds: k.fds, ..k0 })
                },
                written > 0 ==> k0.write_cap > 0,
            decreases buf@.len() - written,
        {
            proof {
                if sys::fd_writable(k0, fd) {
                    assert(k.has_fd(fd));
                    let s = k.fd_slot(fd);
                    assert(0 <= s < k.fds@.len() && k.fds@[s].fd == fd);
                    assert(s == s0);
                }
            }
            let rest = vstd::slice::slice_subrange(buf, written, buf.len());
            let ghost kp = *k;
            match self.write(k, rest) {
                Ok(n) => {
                    proof {
                        assert(rest@.subrange(0, n as int) == buf@.subrange(
                            written as int,
                            written + n,
                        )) by {
                            assert(rest@.subrange(0, n as int) =~= buf@.subrange(
                                written as int,
                                written + n,
                            ));
                        }
                        if written == 0 && kp.files@[nd0].data@ == d0 {
                            assert(buf@.subrange(0, 0) =~= Seq::<u8>::empty());
                            assert(crate::kernel::write_bytes_at(d0, p0, buf@.subrange(0, 0))
                                == crate::kernel::write_bytes_at(
                                d0,
                                p0,
                                Seq::<u8>::empty(),
                            ));
                            crate::kernel::lemma_write_bytes_at_append(
                                d0,
                                p0,
                                Seq::<u8>::empty(),
                                buf@.subrange(0, n as int),
                            );
                            assert(Seq::<u8>::empty() + buf@.subrange(0, n as int) =~= buf@.subrange(
                                0,
                                n as int,
                            ));
                        } else {
                            crate::kernel::lemma_write_bytes_at_append(
                                d0,
                                p0,
                                buf@.subrange(0, written as int),
                                buf@.subrange(written as int, written + n),
                            );
                            assert(buf@.subrange(0, written as int) + buf@.subrange(
                                written as int,
                                written + n,
                            ) =~= buf@.subrange(0, written + n));
                        }
                    }
                    if n == 0 {
                        proof {
                            assert(sys::file_wrote_exactly(
                                k0,
                                *k,
                                fd,
                                buf@.subrange(0, written as int),
                            ));
                        }
                        return Err(IoError { kind: IoErrorKind::WriteZero });
                    }
                    written = written + n;
                },
                Err(e) => {
                    proof {
                        if sys::fd_writable(k0, fd) {
                            assert(sys::fd_writable(kp, fd));
                            assert(false);
                        }
                    }
                    return Err(e);
                },
            }
        }
        proof {
            assert(buf@.subrange(0, buf@.len() as int) =~= buf@);
            assert(sys::file_wrote_exactly(k0, *k, fd, buf@));
        }
        Ok(())
    }

    /// Nothing is buffered, so flushing has nothing to do.
    fn flush(&mut self, k: &mut Kernel) -> (r: Result<(), IoError>)
        ensures
            r is Ok,
            *final(k) == *old(k),
            *final(self) == *old(self),
    {
        Ok(())
    }
}

impl Read for File {
    /// One kernel read at the handle's position: returns the next bytes
    /// of the file, an empty result at or past its end. A handle that
    /// does not name a readable open file — including one forged onto
    /// the console input — reports an error and changes nothing.
    fn read(&mut self, k: &mut Kernel, max: usize) -> (r: Result<Vec<u8>, IoError>)
        ensures
            *final(self) == *old(self),
            sys::fd_readable(*old(k), old(self).fd) ==> (r matches Ok(v) && v@
                == sys::file_read_result(*old(k), old(self).fd, max as int)) && sys::file_read_post(
                *old(k),
                *final(k),
                old(self).fd,
                max as int,
            ),
            !sys::fd_readable(*old(k), old(self).fd) ==> r == Err::<Vec<u8>, IoError>((IoError {
                kind: IoErrorKind::Other,
            })) && *final(k) == *old(k),
    {
        if self.fd == sys::STDIN_FILENO {
            return Err(IoError { kind: IoErrorKind::Other });
        }
        match sys::sys_read(k, self.fd, max) {
            Ok(v) => Ok(v),
            Err(_) => Err(IoError { kind: IoErrorKind::Other }),
        }
    }

    /// Reads exactly `n` bytes from the handle's position, retrying
    /// partial transfers; when the file ends first, consumes what there
    /// is and reports `UnexpectedEof`.
    fn read_exact(&mut self, k: &mut Kernel, n: usize) -> (r: Result<Vec<u8>, IoError>)
        ensures
            *final(self) == *old(self),
            n == 0 ==> (r matches Ok(v) && v@ == Seq::<u8>::empty()) && *final(k) == *old(k),
            n > 0 && !sys::fd_readable(*old(k), old(self).fd) ==> r == Err::<Vec<u8>, IoError>((
            IoError { kind: IoErrorKind::Other })) && *final(k) == *old(k),
            n > 0 && sys::fd_readable(*old(k), old(self).fd) ==> ({
                let s = old(k).fd_slot(old(self).fd);
                let nd = old(k).fds@[s].node as int;
                let p = old(k).fds@[s].pos as int;
                let flen = old(k).files@[nd].data@.len() as int;
                let avail = if p <= flen {
                    flen - p
                } else {
                    0
                };
                &&& n <= avail ==> (r matches Ok(v) && v@ == old(k).files@[nd].data@.subrange(
                    p,
                    p + n,
                )) && final(k).fds@ == old(k).fds@.update(
                    s,
                    (OpenFile { pos: (p + n) as usize, ..old(k).fds@[s] }),
                ) && *final(k) == (Kernel { fds: final(k).fds, ..*old(k) })
                &&& n > avail ==> (r matches Err(e) && e.kind == IoErrorKind::UnexpectedEof)
                    && final(k).fds@ == old(k).fds@.update(
                    s,
                    (OpenFile {
                        pos: (if p <= flen {
                            flen
                        } else {
                            p
                        }) as usize,
                        ..old(k).fds@[s]
                    }),
                ) && *final(k) == (Kernel { fds: final(k).fds, ..*old(k) })
            }),
    {
        if n == 0 {
            return Ok(Vec::new());
        }
        let fd = self.fd;
        if fd == sys::STDIN_FILENO {
            return Err(IoError { kind: IoErrorKind::Other });
        }
        let ghost k0 = *k;
        let ghost f0 = *self;
        let ghost s0 = k0.fd_slot(fd);
        let ghost nd0 = k0.fds@[s0].node as int;
        let ghost p0 = k0.fds@[s0].pos as int;
        let ghost d0 = k0.files@[nd0].data@;
        let ghost flen0 = d0.len() as int;
        let mut out: Vec<u8> = Vec::new();
        while out.len() < n
            invariant
                k0 == *old(k),
                f0 == *old(self),
                *self == f0,
                fd == f0.fd,
                k0.wf(),
                k0.live(),
                k.wf(),
                k.live(),
                fd != sys::STDIN_FILENO,
                out@.len() <= n,
                n > 0,
                !sys::fd_readable(k0, fd) ==> *k == k0 && out@.len() == 0,
                sys::fd_readable(k0, fd) ==> {
                    &&& s0 == k0.fd_slot(fd)
                    &&& 0 <= s0 < k0.fds@.len()
                    &&& k0.fds@[s0].fd == fd
                    &&& k0.fds@[s0].readable
                    &&& nd0 == k0.fds@[s0].node as int
                    &&& p0 == k0.fds@[s0].pos as int
                    &&& d0 == k0.files@[nd0].data@
                    &&& flen0 == d0.len() as int
                    &&& p0 + out@.len() <= usize::MAX
                    &&& (out@.len() == 0 || (p0 + out@.len() <= flen0 && out@ == d0.subrange(
                        p0,
                        p0 + out@.len(),
                    )))
                    &&& k.fds@.len() == k0.fds@.len()
                    &&& k.fds@[s0] == (OpenFile {
                        pos: (p0 + out@.len()) as usize,
                        ..k0.fds@[s0]
                    })
                    &&& forall|j: int|
                        0 <= j < k0.fds@.len() && j != s0 ==> k.fds@[j] == k0.fds@[j]
                    &&& *k == (Kernel { fds: k.fds, ..k0 })
                },
            decreases n - out@.len(),
        {
            proof {
                if sys::fd_readable(k0, fd) {
                    assert(k.has_fd(fd));
                    assert(0 <= k.fd_slot(fd) < k.fds@.len() && k.fds@[k.fd_slot(fd)].fd == fd);
                    assert(k.fd_slot(fd) == s0);
                }
            }
            let ghost kp = *k;
            let ghost got = out@.len() as int;
            match self.read(k, n - out.len()) {
                Ok(chunk) => {
                    proof {
                        if !sys::fd_readable(k0, fd) {
                            assert(!sys::fd_readable(kp, fd));
                            assert(false);
                        }
                    }
                    if chunk.len() == 0 {
                        proof {
                            assert(p0 + got >= flen0);
                            assert(k.fds@ =~= k0.fds@.update(
                                s0,
                                (OpenFile {
                                    pos: (if p0 <= flen0 {
                                        flen0
                                    } else {
                                        p0
                                    }) as usize,
                                    ..k0.fds@[s0]
                                }),
                            ));
                        }
                        return Err(IoError { kind: IoErrorKind::UnexpectedEof });
                    }
                    let ghost cv = chunk@;
                    let ghost ov = out@;
                    let mut chunk = chunk;
                    out.append(&mut chunk);
                    proof {
                        assert(sys::fd_readable(kp, fd));
                        assert(kp.fds@[s0].pos == p0 + got);
                        assert(kp.fds@[s0].node as int == nd0);
                        assert(kp.files@[nd0].data@ == d0);
                        assert(kp.fd_slot(fd) == s0);
                        assert(cv == sys::file_read_result(kp, fd, n - got));
                        assert(cv.len() > 0);
                        assert(p0 + got < flen0);
                        assert(cv == d0.subrange(p0 + got, p0 + got + cv.len()));
                        if got == 0 {
                            assert(ov =~= Seq::<u8>::empty());
                            assert(ov =~= d0.subrange(p0, p0));
                        }
                        assert(ov == d0.subrange(p0, p0 + got));
                        assert(out@ == ov + cv);
                        lemma_subrange_extend(d0, p0, got, cv, out@);
                        assert(sys::read_count(flen0, p0 + got, n - got) == cv.len());
                        assert(p0 + got + cv.len() <= flen0);
                        assert(k0.files@[nd0].data.len() <= usize::MAX);
                        assert(flen0 <= usize::MAX);
                        assert(p0 + out@.len() <= usize::MAX);
                        assert(k.fds@.len() == k0.fds@.len());
                        assert(k.fds@[s0] == (OpenFile {
                            pos: (p0 + out@.len()) as usize,
                            ..k0.fds@[s0]
                        }));
                        assert(forall|j: int|
                            0 <= j < k0.fds@.len() && j != s0 ==> k.fds@[j] == k0.fds@[j]);
                        assert(*k == (Kernel { fds: k.fds, ..k0 }));
                    }
                },
                Err(e) => {
                    proof {
                        if sys::fd_readable(k0, fd) {
                            assert(sys::fd_readable(kp, fd));
                            assert(false);
                        }
                    }
                    return Err(e);
                },
            }
        }
        proof {
            assert(k.fds@ =~= k0.fds@.update(
                s0,
                (OpenFile { pos: (p0 + n) as usize, ..k0.fds@[s0] }),
            ));
        }
        Ok(out)
    }
}

} // verus!
