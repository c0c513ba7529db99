use nextstep_rt::kernel::Kernel;
use nextstep_rt::sys;
use nextstep_rt::sys::KernelStatus;
use nextstep_rt::sys::StatusKind;

#[test]
fn status_codes_classify_into_kinds() {
    assert_eq!(
        KernelStatus::from_code(sys::KERN_NO_SPACE).kind,
        StatusKind::ResourceExhausted
    );
    assert_eq!(
        KernelStatus::from_code(sys::KERN_RESOURCE_SHORTAGE).kind,
        StatusKind::ResourceExhausted
    );
    assert_eq!(
        KernelStatus::from_code(sys::KERN_INVALID_ADDRESS).kind,
        StatusKind::InvalidArgument
    );
    assert_eq!(
        KernelStatus::from_code(sys::KERN_INVALID_ARGUMENT).kind,
        StatusKind::InvalidArgument
    );
    assert_eq!(
        KernelStatus::from_code(sys::KERN_PROTECTION_FAILURE).kind,
        StatusKind::ProtectionFailure
    );
    assert_eq!(
        KernelStatus::from_code(sys::KERN_FAILURE).kind,
        StatusKind::Unknown
    );
    assert_eq!(KernelStatus::from_code(99).kind, StatusKind::Unknown);
    assert_eq!(KernelStatus::from_code(99).raw, 99);
}

#[test]
fn vm_allocate_maps_fresh_page_aligned_regions() {
    let mut k = Kernel::new();
    let a = sys::sys_vm_allocate(&mut k, 100, true).unwrap();
    assert_eq!(a % 4096, 0);
    assert!(a >= 4096);
    assert_eq!(k.regions.len(), 1);
    assert_eq!(k.regions[0].base, a);
    assert_eq!(k.regions[0].len, 4096);

    let b = sys::sys_vm_allocate(&mut k, 8192, true).unwrap();
    assert!(b >= a + 4096);
    assert_eq!(k.regions[1].len, 8192);
}

#[test]
fn vm_allocate_rejects_empty_and_fixed_requests() {
    let mut k = Kernel::new();
    let e = sys::sys_vm_allocate(&mut k, 0, true).unwrap_err();
    assert_eq!(e.raw, sys::KERN_INVALID_ARGUMENT);
    assert_eq!(e.kind, StatusKind::InvalidArgument);
    let e = sys::sys_vm_allocate(&mut k, 100, false).unwrap_err();
    assert_eq!(e.raw, sys::KERN_INVALID_ARGUMENT);
    assert_eq!(k.regions.len(), 0);
}

#[test]
fn injected_failure_reports_exhaustion() {
    let mut k = Kernel::new();
    k.set_vm_failure(true);
    let e = sys::sys_vm_allocate(&mut k, 100, true).unwrap_err();
    assert_eq!(e.raw, sys::KERN_NO_SPACE);
    assert_eq!(e.kind, StatusKind::ResourceExhausted);
    k.set_vm_failure(false);
    assert!(sys::sys_vm_allocate(&mut k, 100, true).is_ok());
}

#[test]
fn vm_deallocate_requires_an_exact_region() {
    let mut k = Kernel::new();
    let a = sys::sys_vm_allocate(&mut k, 100, true).unwrap();
    let e = sys::sys_vm_deallocate(&mut k, a + 4096, 4096).unwrap_err();
    assert_eq!(e.raw, sys::KERN_INVALID_ADDRESS);
    assert_eq!(k.regions.len(), 1);
    sys::sys_vm_deallocate(&mut k, a, 100).unwrap();
    assert_eq!(k.regions.len(), 0);
    // releasing twice is an error the second time
    let e = sys::sys_vm_deallocate(&mut k, a, 100).unwrap_err();
    assert_eq!(e.raw, sys::KERN_INVALID_ADDRESS);
}

#[test]
fn console_write_is_a_partial_write_primitive() {
    let mut k = Kernel::new();
    assert_eq!(sys::sys_write(&mut k, sys::STDOUT_FILENO, b"abc").unwrap(), 3);
    k.set_write_cap(2);
    assert_eq!(sys::sys_write(&mut k, sys::STDERR_FILENO, b"abc").unwrap(), 2);
    assert_eq!(k.stdout_data, b"abc".to_vec());
    assert_eq!(k.stderr_data, b"ab".to_vec());
    // writing to the input stream is refused
    assert_eq!(
        sys::sys_write(&mut k, sys::STDIN_FILENO, b"abc").unwrap_err(),
        sys::EBADF
    );
}

#[test]
fn descriptor_life_cycle() {
    let mut k = Kernel::new();
    let path = b"f.txt\0";
    let fd = sys::sys_open(&mut k, path, sys::O_CREAT | sys::O_RDWR, 0o644).unwrap();
    assert_eq!(fd, 3);
    assert_eq!(sys::sys_write(&mut k, fd, b"12345").unwrap(), 5);
    // a second descriptor on the same file reads from the start
    let fd2 = sys::sys_open(&mut k, path, sys::O_RDONLY, 0).unwrap();
    assert_eq!(fd2, 4);
    assert_eq!(sys::sys_read(&mut k, fd2, 3).unwrap(), b"123".to_vec());
    assert_eq!(sys::sys_read(&mut k, fd2, 10).unwrap(), b"45".to_vec());
    assert_eq!(sys::sys_read(&mut k, fd2, 10).unwrap(), b"".to_vec());
    sys::sys_close(&mut k, fd).unwrap();
    sys::sys_close(&mut k, fd2).unwrap();
    assert_eq!(sys::sys_close(&mut k, fd).unwrap_err(), sys::EBADF);
}

#[test]
fn open_rejects_unterminated_paths() {
    let mut k = Kernel::new();
    let e = sys::sys_open(&mut k, b"no-nul", sys::O_CREAT | sys::O_RDWR, 0o644).unwrap_err();
    assert_eq!(e, sys::EINVAL);
}

#[test]
fn exit_records_the_status() {
    let mut k = Kernel::new();
    assert_eq!(sys::sys_getpid(&k), 1);
    sys::sys_exit(&mut k, 7);
    assert_eq!(k.exit_status, Some(7));
}

#[test]
fn wait_status_helpers() {
    // a normal exit with code 5 is reported as 5 << 8
    let exited = 5 << 8;
    assert!(sys::WIFEXITED(exited));
    assert_eq!(sys::WEXITSTATUS(exited), 5);
    assert!(!sys::WIFSIGNALED(exited));

    // death by signal 9 is reported in the low byte
    let signaled = 9;
    assert!(!sys::WIFEXITED(signaled));
    assert!(sys::WIFSIGNALED(signaled));
    assert_eq!(sys::WTERMSIG(signaled), 9);

    // the stopped marker 0x7f is not a signal death
    assert!(!sys::WIFSIGNALED(0x7f));
}
