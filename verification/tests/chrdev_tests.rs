use linux_kernel_module::chrdev::{builder, ChrdevCall, ChrdevSubsystem};
use linux_kernel_module::devices::{CycleFile, SeekFile, WriteFile};
use linux_kernel_module::file_operations::{
    llseek_callback, open_callback, read_callback, release_callback, vtable_for, write_callback,
    File, HandleSlot, SEEK_CUR, SEEK_END, SEEK_SET,
};
use linux_kernel_module::types::CStr;
use linux_kernel_module::user_ptr::UserMemory;

fn name() -> CStr {
    CStr::new(b"chrdev-tests\0".to_vec()).unwrap()
}

#[test]
fn test_vtable_slot_presence() {
    // a type providing only open and read gets open/read/release slots and
    // no write or seek slot
    let v = vtable_for::<CycleFile>();
    assert!(v.has_open);
    assert!(v.has_release);
    assert!(v.has_read);
    assert!(!v.has_write);
    assert!(!v.has_seek);

    let v = vtable_for::<SeekFile>();
    assert!(v.has_open && v.has_release && v.has_seek);
    assert!(!v.has_read && !v.has_write);

    let v = vtable_for::<WriteFile>();
    assert!(v.has_open && v.has_release && v.has_read && v.has_write);
    assert!(!v.has_seek);
}

#[test]
fn test_read() {
    let mut slot: HandleSlot<CycleFile> = HandleSlot::new();
    assert_eq!(open_callback(&mut slot), 0);
    let file = File::new(0, 0);
    let mut mem = UserMemory::new(vec![0; 12]);
    let mut offset: i64 = 0;
    let r = read_callback(&slot, &file, &mut mem, 0, 12, &mut offset);
    assert_eq!(r, 12);
    assert_eq!(offset, 12);
    assert_eq!(mem.into_bytes(), b"123456789123".to_vec());
    assert_eq!(release_callback(&mut slot), 0);
}

#[test]
fn test_read_offset() {
    let mut slot: HandleSlot<CycleFile> = HandleSlot::new();
    assert_eq!(open_callback(&mut slot), 0);
    let file = File::new(0, 0);
    let mut offset: i64 = 0;

    let mut mem = UserMemory::new(vec![0; 5]);
    assert_eq!(read_callback(&slot, &file, &mut mem, 0, 5, &mut offset), 5);
    assert_eq!(mem.into_bytes(), b"12345".to_vec());

    let mut mem = UserMemory::new(vec![0; 5]);
    assert_eq!(read_callback(&slot, &file, &mut mem, 0, 5, &mut offset), 5);
    assert_eq!(mem.into_bytes(), b"67891".to_vec());
    assert_eq!(offset, 10);
}

#[test]
fn test_read_at() {
    let mut slot: HandleSlot<CycleFile> = HandleSlot::new();
    assert_eq!(open_callback(&mut slot), 0);
    let file = File::new(0, 0);
    let mut mem = UserMemory::new(vec![0; 5]);
    let mut offset: i64 = 7;
    assert_eq!(read_callback(&slot, &file, &mut mem, 0, 5, &mut offset), 5);
    assert_eq!(mem.into_bytes(), b"89123".to_vec());
    assert_eq!(offset, 12);
}

#[test]
fn test_read_unimplemented() {
    // the read slot of a seek-only type is absent, so the host itself turns
    // a read into its own not-supported error and this layer never runs
    assert!(!vtable_for::<SeekFile>().has_read);
}

#[test]
fn test_negative_offset_rejected() {
    let mut slot: HandleSlot<CycleFile> = HandleSlot::new();
    assert_eq!(open_callback(&mut slot), 0);
    let file = File::new(0, 0);
    let mut mem = UserMemory::new(vec![7; 4]);
    let mut offset: i64 = -5;
    let r = read_callback(&slot, &file, &mut mem, 0, 4, &mut offset);
    assert_eq!(r, -22);
    assert_eq!(offset, -5);
    assert_eq!(mem.into_bytes(), vec![7; 4]);
}

#[test]
fn test_lseek() {
    let mut slot: HandleSlot<SeekFile> = HandleSlot::new();
    assert_eq!(open_callback(&mut slot), 0);
    let file = File::new(0, 0);
    assert_eq!(llseek_callback(&slot, &file, 12, SEEK_SET), 1234);
    assert_eq!(llseek_callback(&slot, &file, -12, SEEK_END), 1234);
    assert_eq!(llseek_callback(&slot, &file, 12, SEEK_CUR), 1234);
    // a start seek to u64::MAX arrives as a negative raw offset
    assert_eq!(llseek_callback(&slot, &file, -1, SEEK_SET), -22);
    // an unknown whence code is rejected the same way
    assert_eq!(llseek_callback(&slot, &file, 0, 9), -22);
}

#[test]
fn test_lseek_unimplemented() {
    assert!(!vtable_for::<CycleFile>().has_seek);
}

#[test]
fn test_write_unimplemented() {
    assert!(!vtable_for::<CycleFile>().has_write);
}

#[test]
fn test_write() {
    let mut slot: HandleSlot<WriteFile> = HandleSlot::new();
    assert_eq!(open_callback(&mut slot), 0);
    let file = File::new(0, 0);

    let mem = UserMemory::new(vec![1, 2, 3]);
    let mut offset: i64 = 0;
    assert_eq!(write_callback(&mut slot, &mem, 0, 3, &mut offset), 3);
    assert_eq!(offset, 3);

    let mut mem = UserMemory::new(vec![0; 1]);
    let mut read_offset: i64 = 0;
    assert_eq!(read_callback(&slot, &file, &mut mem, 0, 1, &mut read_offset), 1);
    assert_eq!(mem.into_bytes(), b"3".to_vec());

    let mem = UserMemory::new(vec![1, 2, 3, 4, 5]);
    assert_eq!(write_callback(&mut slot, &mem, 0, 5, &mut offset), 5);
    assert_eq!(offset, 8);

    let mut mem = UserMemory::new(vec![0; 1]);
    let mut read_offset: i64 = 0;
    assert_eq!(read_callback(&slot, &file, &mut mem, 0, 1, &mut read_offset), 1);
    assert_eq!(mem.into_bytes(), b"8".to_vec());

    assert_eq!(release_callback(&mut slot), 0);
}

#[test]
fn test_open_release_exactly_once() {
    let mut slot: HandleSlot<WriteFile> = HandleSlot::new();
    assert_eq!(open_callback(&mut slot), 0);
    assert_eq!(release_callback(&mut slot), 0);
    // the slot is empty again, ready only for a fresh open
    assert_eq!(open_callback(&mut slot), 0);
    assert_eq!(release_callback(&mut slot), 0);
}

#[test]
fn test_build_success_log() {
    let mut host = ChrdevSubsystem::new(vec![]);
    let reg = builder(name(), 0, 3)
        .unwrap()
        .register_device::<CycleFile>()
        .register_device::<SeekFile>()
        .register_device::<WriteFile>()
        .build(&mut host)
        .unwrap();
    assert_eq!(reg.device_count(), 3);
    assert_eq!(
        host.calls().as_slice(),
        &[
            ChrdevCall::AllocRegion { name: name(), first_minor: 0, count: 3 },
            ChrdevCall::CdevAdd { index: 0, vtable: vtable_for::<CycleFile>() },
            ChrdevCall::CdevAdd { index: 1, vtable: vtable_for::<SeekFile>() },
            ChrdevCall::CdevAdd { index: 2, vtable: vtable_for::<WriteFile>() },
        ]
    );
    reg.unregister(&mut host);
    let unregisters = host
        .calls()
        .iter()
        .filter(|c| **c == ChrdevCall::UnregisterRegion)
        .count();
    assert_eq!(unregisters, 1);
    assert_eq!(
        &host.calls().as_slice()[4..],
        &[
            ChrdevCall::CdevDel { index: 0 },
            ChrdevCall::CdevDel { index: 1 },
            ChrdevCall::CdevDel { index: 2 },
            ChrdevCall::UnregisterRegion,
        ]
    );
}

#[test]
fn test_build_region_refused() {
    let mut host = ChrdevSubsystem::new(vec![-12]);
    let err = match builder(name(), 0, 2).unwrap().register_device::<CycleFile>().build(&mut host)
    {
        Err(e) => e,
        Ok(_) => panic!("the region grant should have been refused"),
    };
    assert_eq!(err.to_kernel_errno(), -12);
    assert_eq!(host.calls().as_slice(), &[ChrdevCall::AllocRegion { name: name(), first_minor: 0, count: 2 }]);
}

#[test]
fn test_ordered_rollback() {
    // the third sub-device is refused: the first two are torn down in
    // strictly reverse order, then the region, and nothing past the third
    // is ever added
    let mut host = ChrdevSubsystem::new(vec![0, 0, 0, -16]);
    let b = builder(name(), 0, 3)
        .unwrap()
        .register_device::<CycleFile>()
        .register_device::<SeekFile>()
        .register_device::<WriteFile>();
    let err = match b.build(&mut host) {
        Err(e) => e,
        Ok(_) => panic!("the third sub-device should have been refused"),
    };
    assert_eq!(err.to_kernel_errno(), -16);
    assert_eq!(
        host.calls().as_slice(),
        &[
            ChrdevCall::AllocRegion { name: name(), first_minor: 0, count: 3 },
            ChrdevCall::CdevAdd { index: 0, vtable: vtable_for::<CycleFile>() },
            ChrdevCall::CdevAdd { index: 1, vtable: vtable_for::<SeekFile>() },
            ChrdevCall::CdevAdd { index: 2, vtable: vtable_for::<WriteFile>() },
            ChrdevCall::CdevDel { index: 1 },
            ChrdevCall::CdevDel { index: 0 },
            ChrdevCall::UnregisterRegion,
        ]
    );
}

#[test]
fn test_rollback_first_device() {
    let mut host = ChrdevSubsystem::new(vec![0, -16]);
    let b = builder(name(), 0, 2)
        .unwrap()
        .register_device::<CycleFile>()
        .register_device::<SeekFile>();
    let err = match b.build(&mut host) {
        Err(e) => e,
        Ok(_) => panic!("the first sub-device should have been refused"),
    };
    assert_eq!(err.to_kernel_errno(), -16);
    assert_eq!(
        host.calls().as_slice(),
        &[
            ChrdevCall::AllocRegion { name: name(), first_minor: 0, count: 2 },
            ChrdevCall::CdevAdd { index: 0, vtable: vtable_for::<CycleFile>() },
            ChrdevCall::UnregisterRegion,
        ]
    );
}

#[test]
fn test_negative_offset_rejected_write() {
    let mut slot: HandleSlot<WriteFile> = HandleSlot::new();
    assert_eq!(open_callback(&mut slot), 0);
    let mem = UserMemory::new(vec![1, 2, 3]);
    let mut offset: i64 = -1;
    assert_eq!(write_callback(&mut slot, &mem, 0, 3, &mut offset), -22);
    assert_eq!(offset, -1);
}

#[test]
fn test_region_spans_all_minors() {
    // the region is requested for the whole minors range, even when fewer
    // sub-devices are registered than the range holds
    let mut host = ChrdevSubsystem::new(vec![]);
    let reg = builder(name(), 0, 4)
        .unwrap()
        .register_device::<CycleFile>()
        .register_device::<SeekFile>()
        .build(&mut host)
        .unwrap();
    assert_eq!(reg.device_count(), 4);
    assert_eq!(
        host.calls().as_slice(),
        &[
            ChrdevCall::AllocRegion { name: name(), first_minor: 0, count: 4 },
            ChrdevCall::CdevAdd { index: 0, vtable: vtable_for::<CycleFile>() },
            ChrdevCall::CdevAdd { index: 1, vtable: vtable_for::<SeekFile>() },
        ]
    );
    reg.unregister(&mut host);
    assert_eq!(
        &host.calls().as_slice()[3..],
        &[
            ChrdevCall::CdevDel { index: 0 },
            ChrdevCall::CdevDel { index: 1 },
            ChrdevCall::UnregisterRegion,
        ]
    );
}
