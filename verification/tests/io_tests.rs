use nextstep_rt::io::stderr;
use nextstep_rt::io::stdin;
use nextstep_rt::io::stdout;
use nextstep_rt::io::File;
use nextstep_rt::io::IoError;
use nextstep_rt::io::IoErrorKind;
use nextstep_rt::io::Read;
use nextstep_rt::io::Write;
use nextstep_rt::kernel::Kernel;
use nextstep_rt::sys;

#[test]
fn errno_classification() {
    assert_eq!(IoError::from(sys::ENOENT).kind, IoErrorKind::NotFound);
    assert_eq!(IoError::from(sys::EPERM).kind, IoErrorKind::PermissionDenied);
    assert_eq!(IoError::from(sys::EACCES).kind, IoErrorKind::PermissionDenied);
    assert_eq!(IoError::from(sys::EPIPE).kind, IoErrorKind::BrokenPipe);
    assert_eq!(IoError::from(sys::EEXIST).kind, IoErrorKind::AlreadyExists);
    assert_eq!(IoError::from(sys::EAGAIN).kind, IoErrorKind::WouldBlock);
    assert_eq!(IoError::from(sys::EINTR).kind, IoErrorKind::Interrupted);
    assert_eq!(IoError::from(sys::EINVAL).kind, IoErrorKind::InvalidInput);
    assert_eq!(IoError::from(sys::EBADF).kind, IoErrorKind::Other);
    assert_eq!(IoError::from(-1).kind, IoErrorKind::Other);
}

#[test]
fn stdout_write_all_appends_everything() {
    let mut k = Kernel::new();
    let mut out = stdout();
    out.write_all(&mut k, b"hello, ").unwrap();
    out.write_all(&mut k, b"world").unwrap();
    assert_eq!(k.stdout_data, b"hello, world".to_vec());
    assert_eq!(k.stderr_data, b"".to_vec());
}

#[test]
fn stderr_write_all_appends_everything() {
    let mut k = Kernel::new();
    let mut err = stderr();
    err.write_all(&mut k, b"oops").unwrap();
    assert_eq!(k.stderr_data, b"oops".to_vec());
    assert_eq!(k.stdout_data, b"".to_vec());
}

#[test]
fn capped_writes_transfer_partially_and_write_all_retries() {
    let mut k = Kernel::new();
    k.set_write_cap(3);
    let mut out = stdout();
    assert_eq!(out.write(&mut k, b"hello").unwrap(), 3);
    assert_eq!(k.stdout_data, b"hel".to_vec());
    out.write_all(&mut k, b"lo, world").unwrap();
    assert_eq!(k.stdout_data, b"hello, world".to_vec());
}

#[test]
fn a_sink_that_accepts_nothing_yields_write_zero() {
    let mut k = Kernel::new();
    k.set_write_cap(0);
    let mut out = stdout();
    let e = out.write_all(&mut k, b"data").unwrap_err();
    assert_eq!(e.kind, IoErrorKind::WriteZero);
    assert_eq!(k.stdout_data, b"".to_vec());
    // an empty write still succeeds
    out.write_all(&mut k, b"").unwrap();
}

#[test]
fn write_str_writes_the_string_bytes() {
    let mut k = Kernel::new();
    stdout().write_str(&mut k, "line one\n").unwrap();
    stderr().write_str(&mut k, "warn\n").unwrap();
    assert_eq!(k.stdout_data, b"line one\n".to_vec());
    assert_eq!(k.stderr_data, b"warn\n".to_vec());
}

#[test]
fn stdin_reads_and_reports_end_of_input() {
    let mut k = Kernel::new();
    k.feed_stdin(b"abcde");
    let mut inp = stdin();
    assert_eq!(inp.read(&mut k, 2).unwrap(), b"ab".to_vec());
    assert_eq!(inp.read_exact(&mut k, 3).unwrap(), b"cde".to_vec());
    // the input is exhausted: a further read sees end of input
    assert_eq!(inp.read(&mut k, 4).unwrap(), b"".to_vec());
    let e = inp.read_exact(&mut k, 1).unwrap_err();
    assert_eq!(e.kind, IoErrorKind::UnexpectedEof);
}

#[test]
fn stdin_read_exact_past_the_end_consumes_what_there_is() {
    let mut k = Kernel::new();
    k.feed_stdin(b"xy");
    let mut inp = stdin();
    let e = inp.read_exact(&mut k, 5).unwrap_err();
    assert_eq!(e.kind, IoErrorKind::UnexpectedEof);
    assert_eq!(k.stdin_pos, 2);
}

#[test]
fn file_round_trip_create_write_reopen_read() {
    let mut k = Kernel::new();
    let mut f = File::create(&mut k, "log.txt").unwrap();
    f.write_all(&mut k, b"hello file").unwrap();
    f.close(&mut k);

    let mut g = File::open(&mut k, "log.txt", sys::O_RDONLY, 0).unwrap();
    let body = g.read_exact(&mut k, 10).unwrap();
    assert_eq!(body, b"hello file".to_vec());
    let e = g.read_exact(&mut k, 1).unwrap_err();
    assert_eq!(e.kind, IoErrorKind::UnexpectedEof);
    g.close(&mut k);
    assert_eq!(k.fds.len(), 0);
}

#[test]
fn open_missing_file_is_not_found() {
    let mut k = Kernel::new();
    let e = File::open(&mut k, "absent", sys::O_RDONLY, 0).unwrap_err();
    assert_eq!(e.kind, IoErrorKind::NotFound);
}

#[test]
fn exclusive_creation_of_an_existing_file_already_exists() {
    let mut k = Kernel::new();
    let f = File::create(&mut k, "taken").unwrap();
    f.close(&mut k);
    let e = File::open(
        &mut k,
        "taken",
        sys::O_CREAT | sys::O_EXCL | sys::O_WRONLY,
        0o644,
    )
    .unwrap_err();
    assert_eq!(e.kind, IoErrorKind::AlreadyExists);
}

#[test]
fn malformed_access_mode_is_invalid_input() {
    let mut k = Kernel::new();
    let e = File::open(&mut k, "x", sys::O_RDWR | 1, 0).unwrap_err();
    assert_eq!(e.kind, IoErrorKind::InvalidInput);
}

#[test]
fn truncating_create_empties_an_existing_file() {
    let mut k = Kernel::new();
    let mut f = File::create(&mut k, "notes").unwrap();
    f.write_all(&mut k, b"old contents").unwrap();
    f.close(&mut k);

    let g = File::create(&mut k, "notes").unwrap();
    g.close(&mut k);

    let mut h = File::open(&mut k, "notes", sys::O_RDONLY, 0).unwrap();
    assert_eq!(h.read(&mut k, 100).unwrap(), b"".to_vec());
}

#[test]
fn reading_a_write_only_file_fails() {
    let mut k = Kernel::new();
    let mut f = File::create(&mut k, "wo").unwrap();
    let e = f.read(&mut k, 1).unwrap_err();
    assert_eq!(e.kind, IoErrorKind::Other);
}

#[test]
fn writing_a_read_only_file_fails() {
    let mut k = Kernel::new();
    let f = File::create(&mut k, "ro").unwrap();
    f.close(&mut k);
    let mut g = File::open(&mut k, "ro", sys::O_RDONLY, 0).unwrap();
    let e = g.write(&mut k, b"data").unwrap_err();
    assert_eq!(e.kind, IoErrorKind::Other);
}

#[test]
fn read_write_descriptor_does_both() {
    let mut k = Kernel::new();
    let f = File::create(&mut k, "both").unwrap();
    f.close(&mut k);
    let mut g = File::open(&mut k, "both", sys::O_RDWR, 0).unwrap();
    g.write_all(&mut k, b"ab").unwrap();
    // the descriptor's position is past what it wrote; reopen to read
    g.close(&mut k);
    let mut h = File::open(&mut k, "both", sys::O_RDWR, 0).unwrap();
    assert_eq!(h.read_exact(&mut k, 2).unwrap(), b"ab".to_vec());
}

#[test]
fn flush_has_nothing_to_do() {
    let mut k = Kernel::new();
    stdout().flush(&mut k).unwrap();
    stderr().flush(&mut k).unwrap();
    let mut f = File::create(&mut k, "f").unwrap();
    f.flush(&mut k).unwrap();
}
