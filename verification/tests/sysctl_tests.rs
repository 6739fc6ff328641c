use linux_kernel_module::sysctl::{proc_handler, trim_whitespace, Sysctl, SysctlCall, SysctlSubsystem};
use linux_kernel_module::types::{CStr, Mode};
use linux_kernel_module::user_ptr::UserMemory;

fn path() -> CStr {
    CStr::new(b"rust/sysctl-tests\0".to_vec()).unwrap()
}

fn name() -> CStr {
    CStr::new(b"a\0".to_vec()).unwrap()
}

#[test]
fn test_trim_whitespace() {
    assert_eq!(trim_whitespace(b"  1\t"), b"1");
    assert_eq!(trim_whitespace(b"1\n"), b"1");
    assert_eq!(trim_whitespace(b"\t\n  \t"), b"");
    assert_eq!(trim_whitespace(b""), b"");
    assert_eq!(trim_whitespace(b"a b"), b"a b");
    assert_eq!(trim_whitespace(b"0"), b"0");
}

#[test]
fn test_read_bool_default() {
    let mut storage = false;
    let mut mem = UserMemory::new(vec![0; 4]);
    let mut len: usize = 4;
    let mut ppos: i64 = 0;
    let r = proc_handler(&mut storage, 0, 0, &mut mem, &mut len, &mut ppos);
    assert_eq!(r, 0);
    assert_eq!(len, 2);
    assert_eq!(ppos, 2);
    assert_eq!(&mem.into_bytes()[..2], b"0\n");
    assert!(!storage);
}

#[test]
fn test_read_at_offset_is_eof() {
    let mut storage = true;
    let mut mem = UserMemory::new(vec![9; 4]);
    let mut len: usize = 4;
    let mut ppos: i64 = 2;
    let r = proc_handler(&mut storage, 0, 0, &mut mem, &mut len, &mut ppos);
    assert_eq!(r, 0);
    assert_eq!(len, 0);
    assert_eq!(ppos, 2);
    assert_eq!(mem.into_bytes(), vec![9; 4]);
}

#[test]
fn test_write_bool() {
    let mut storage = false;
    let mut mem = UserMemory::new(b"1\n".to_vec());
    let mut len: usize = 2;
    let mut ppos: i64 = 0;
    let r = proc_handler(&mut storage, 1, 0, &mut mem, &mut len, &mut ppos);
    assert_eq!(r, 0);
    assert_eq!(len, 2);
    assert_eq!(ppos, 2);
    assert!(storage);

    // and reading it back renders the stored value
    let mut mem = UserMemory::new(vec![0; 4]);
    let mut len: usize = 4;
    let mut ppos: i64 = 0;
    assert_eq!(proc_handler(&mut storage, 0, 0, &mut mem, &mut len, &mut ppos), 0);
    assert_eq!(&mem.into_bytes()[..2], b"1\n");
}

#[test]
fn test_write_bool_whitespace() {
    let mut storage = false;
    let mut mem = UserMemory::new(b"  1\t".to_vec());
    let mut len: usize = 4;
    let mut ppos: i64 = 0;
    let r = proc_handler(&mut storage, 1, 0, &mut mem, &mut len, &mut ppos);
    assert_eq!(r, 0);
    assert_eq!(len, 4);
    assert!(storage);
}

#[test]
fn test_write_bool_invalid() {
    let mut storage = true;
    let mut mem = UserMemory::new(b"yes\n".to_vec());
    let mut len: usize = 4;
    let mut ppos: i64 = 0;
    let r = proc_handler(&mut storage, 1, 0, &mut mem, &mut len, &mut ppos);
    assert_eq!(r, -22);
    // the whole input still counts as processed, as the handler reports it
    assert_eq!(len, 4);
    assert_eq!(ppos, 4);
    assert!(storage);
}

#[test]
fn test_handler_bad_buffer() {
    let mut storage = false;
    // the buffer is not mapped: a write faults without storing anything
    let mut mem = UserMemory::new(vec![]);
    let mut len: usize = 2;
    let mut ppos: i64 = 0;
    let r = proc_handler(&mut storage, 1, 64, &mut mem, &mut len, &mut ppos);
    assert_eq!(r, -14);
    assert_eq!(len, 2);
    assert_eq!(ppos, 0);
    assert!(!storage);
}

#[test]
fn test_register_rejects_separator() {
    let mut host = SysctlSubsystem::new(vec![]);
    let bad = CStr::new(b"a/b\0".to_vec()).unwrap();
    let err = match Sysctl::register(path(), bad, false, Mode::from_int(0o666), &mut host) {
        Err(e) => e,
        Ok(_) => panic!("a name with a separator should have been rejected"),
    };
    assert_eq!(err.to_kernel_errno(), -22);
    // rejected before any call reaches the subsystem
    assert!(host.calls().is_empty());
}

#[test]
fn test_register_refused_is_out_of_memory() {
    let mut host = SysctlSubsystem::new(vec![-1]);
    let err = match Sysctl::register(path(), name(), false, Mode::from_int(0o666), &mut host) {
        Err(e) => e,
        Ok(_) => panic!("the refused registration should have failed"),
    };
    assert_eq!(err.to_kernel_errno(), -12);
    assert_eq!(
        host.calls().as_slice(),
        &[SysctlCall::RegisterTable { path: path(), name: name(), mode: 0o666 }]
    );
}

#[test]
fn test_get_and_exactly_once_unregister() {
    let mut host = SysctlSubsystem::new(vec![]);
    let sysctl =
        Sysctl::register(path(), name(), true, Mode::from_int(0o644), &mut host).unwrap();
    assert_eq!(*sysctl.get(), true);
    let storage = sysctl.unregister(&mut host);
    assert_eq!(storage, true);
    assert_eq!(
        host.calls().as_slice(),
        &[
            SysctlCall::RegisterTable { path: path(), name: name(), mode: 0o644 },
            SysctlCall::UnregisterTable,
        ]
    );
}

#[test]
fn test_handler_position_overflow() {
    let mut storage = false;
    let mut mem = UserMemory::new(b"1\n".to_vec());
    let mut len: usize = 2;
    let mut ppos: i64 = i64::MAX;
    let r = proc_handler(&mut storage, 1, 0, &mut mem, &mut len, &mut ppos);
    assert_eq!(r, -22);
    assert_eq!(len, 2);
    assert_eq!(ppos, i64::MAX);
    assert!(!storage);
}
