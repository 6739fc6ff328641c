use linux_kernel_module::devices::Testfs;
use linux_kernel_module::filesystem::{
    register, FileSystem, FileSystemFlags, FsCall, FsSubsystem, FS_REQUIRES_DEV,
    FS_USERNS_MOUNT,
};

#[test]
fn test_flags_mask_unknown_bits() {
    let f = FileSystemFlags::from_bits_truncate(FS_REQUIRES_DEV | FS_USERNS_MOUNT | 0x40);
    assert_eq!(f.bits(), FS_REQUIRES_DEV | FS_USERNS_MOUNT);
    assert!(f.contains(&FileSystemFlags::from_bits_truncate(FS_REQUIRES_DEV)));
    assert!(!FileSystemFlags::empty().contains(&f));
    assert_eq!(Testfs::name().as_bytes(), b"testfs\0");
}

#[test]
fn test_register_filesystem() {
    let mut host = FsSubsystem::new(vec![]);
    let reg = register::<Testfs>(&mut host).unwrap();
    let expected = FsCall::RegisterFilesystem { name: Testfs::name(), flags: FS_REQUIRES_DEV };
    assert_eq!(host.calls().as_slice(), &[expected.clone()]);
    reg.unregister(&mut host);
    assert_eq!(host.calls().as_slice(), &[expected, FsCall::UnregisterFilesystem]);
}

#[test]
fn test_register_filesystem_refused() {
    let mut host = FsSubsystem::new(vec![-17]);
    let err = match register::<Testfs>(&mut host) {
        Err(e) => e,
        Ok(_) => panic!("the refused registration should have failed"),
    };
    assert_eq!(err.to_kernel_errno(), -17);
    assert_eq!(
        host.calls().as_slice(),
        &[FsCall::RegisterFilesystem { name: Testfs::name(), flags: FS_REQUIRES_DEV }]
    );
}
