use vstd::prelude::*;

use crate::error::{Error, KernelResult};
use crate::types::CStr;

verus! {

/// The filesystem kind needs a backing block device.
pub const FS_REQUIRES_DEV: i32 = 1;

/// Mount data is binary rather than text.
pub const FS_BINARY_MOUNTDATA: i32 = 2;

/// The kind accepts a subtype after a dot in its name.
pub const FS_HAS_SUBTYPE: i32 = 4;

/// Unprivileged user namespaces may mount the kind.
pub const FS_USERNS_MOUNT: i32 = 8;

/// Rename moves directory entries itself.
pub const FS_RENAME_DOES_D_MOVE: i32 = 32768;

/// Behaviour flags of a filesystem kind, masked to the bits this layer
/// knows.
#[derive(Clone, Copy, Debug)]
pub struct FileSystemFlags {
    bits: i32,
}

impl FileSystemFlags {
    pub closed spec fn view(self) -> i32 {
        self.bits
    }

    pub fn empty() -> (f: FileSystemFlags)
        ensures
            f@ == 0,
    {
        FileSystemFlags { bits: 0 }
    }

    /// Keeps only the known flag bits, dropping the rest.
    pub fn from_bits_truncate(bits: i32) -> (f: FileSystemFlags)
        ensures
            f@ == bits & (FS_REQUIRES_DEV | FS_BINARY_MOUNTDATA | FS_HAS_SUBTYPE | FS_USERNS_MOUNT
                | FS_RENAME_DOES_D_MOVE),
    {
        FileSystemFlags {
            bits: bits & (FS_REQUIRES_DEV | FS_BINARY_MOUNTDATA | FS_HAS_SUBTYPE | FS_USERNS_MOUNT
                | FS_RENAME_DOES_D_MOVE),
        }
    }

    pub fn bits(&self) -> (b: i32)
        ensures
            b == self@,
    {
        self.bits
    }

    pub fn contains(&self, other: &FileSystemFlags) -> (b: bool)
        ensures
            b == (self@ & other@ == other@),
    {
        self.bits & other.bits == other.bits
    }
}

/// A filesystem kind an extension author describes: its registered name
/// and its behaviour flags.
pub trait FileSystem {
    /// The bytes of the name the kind is registered under.
    spec fn spec_name() -> Seq<u8>;

    /// The behaviour flag bits the kind is registered with.
    spec fn spec_flags() -> i32;

    fn name() -> (n: CStr)
        ensures
            n@ == Self::spec_name(),
    ;

    fn flags() -> (f: FileSystemFlags)
        ensures
            f@ == Self::spec_flags(),
    ;
}

/// One call into the filesystem-type entry points, as the subsystem model
/// records it, with the arguments that crossed the boundary.
#[derive(Clone, Debug, PartialEq, Eq)]
pub enum FsCall {
    RegisterFilesystem { name: CStr, flags: i32 },
    UnregisterFilesystem,
}

/// The filesystem-type subsystem across the boundary, modelled by what
/// this layer can observe of it: the entry-point calls made so far and the
/// status it will answer to each further registration.
pub struct FsSubsystem {
    calls: Vec<FsCall>,
    statuses: Vec<i32>,
    cursor: usize,
}

impl FsSubsystem {
    pub closed spec fn log(self) -> Seq<FsCall> {
        self.calls@
    }

    pub closed spec fn statuses_seq(self) -> Seq<i32> {
        self.statuses@
    }

    pub closed spec fn cursor(self) -> int {
        self.cursor as int
    }

    pub open spec fn wf(self) -> bool {
        self.cursor() <= self.statuses_seq().len()
    }

    /// The status the subsystem will answer to the `k`-th registration from
    /// now on.
    pub open spec fn reply(self, k: int) -> int {
        if self.cursor() + k < self.statuses_seq().len() {
            self.statuses_seq()[self.cursor() + k] as int
        } else {
            0
        }
    }

    pub fn new(statuses: Vec<i32>) -> (h: FsSubsystem)
        ensures
            h.wf(),
            h.log() == Seq::<FsCall>::empty(),
            h.statuses_seq() == statuses@,
            h.cursor() == 0,
    {
        FsSubsystem { calls: Vec::new(), statuses, cursor: 0 }
    }

    /// The recorded calls, for inspection.
    pub fn calls(&self) -> (c: &Vec<FsCall>)
        ensures
            c@ == self.log(),
    {
        &self.calls
    }

    fn register_filesystem(&mut self, name: CStr, flags: i32) -> (r: i32)
        requires
            old(self).wf(),
        ensures
            final(self).wf(),
            r as int == old(self).reply(0),
            final(self).log() == old(self).log().push(
                (FsCall::RegisterFilesystem { name, flags }),
            ),
            final(self).statuses_seq() == old(self).statuses_seq(),
    {
        self.calls.push(FsCall::RegisterFilesystem { name, flags });
        if self.cursor < self.statuses.len() {
            let s = self.statuses[self.cursor];
            self.cursor = self.cursor + 1;
            s
        } else {
            0
        }
    }

    fn unregister_filesystem(&mut self)
        requires
            old(self).wf(),
        ensures
            final(self).wf(),
            final(self).log() == old(self).log().push(FsCall::UnregisterFilesystem),
            final(self).statuses_seq() == old(self).statuses_seq(),
            final(self).cursor() == old(self).cursor(),
    {
        self.calls.push(FsCall::UnregisterFilesystem);
    }
}

/// An owned, active filesystem-type registration for the kind `T`. Tearing
/// it down consumes the value, so the unregister call happens exactly once.
pub struct Registration<T: FileSystem> {
    marker: core::marker::PhantomData<T>,
}

impl<T: FileSystem> Registration<T> {
    /// Unregisters the filesystem kind, exactly once.
    pub fn unregister(self, host: &mut FsSubsystem)
        requires
            old(host).wf(),
        ensures
            final(host).wf(),
            final(host).log() == old(host).log().push(FsCall::UnregisterFilesystem),
    {
        host.unregister_filesystem();
    }
}

/// Registers the filesystem kind `T` with the subsystem, handing it the
/// kind's name and flag bits. A non-zero status is handed back unchanged
/// and nothing is retained.
pub fn register<T: FileSystem>(host: &mut FsSubsystem) -> (r: KernelResult<Registration<T>>)
    requires
        old(host).wf(),
    ensures
        final(host).wf(),
        final(host).log().len() == old(host).log().len() + 1,
        final(host).log() == old(host).log().push(
            (FsCall::RegisterFilesystem {
                name: final(host).log().last()->RegisterFilesystem_name,
                flags: T::spec_flags(),
            }),
        ),
        final(host).log().last()->RegisterFilesystem_name@ == T::spec_name(),
        old(host).reply(0) != 0 ==> (r matches Err(e) && e@ == old(host).reply(0)),
        old(host).reply(0) == 0 ==> r is Ok,
{
    let name = T::name();
    let flags = T::flags();
    let bits = flags.bits();
    let result = host.register_filesystem(name, bits);
    if result != 0 {
        return Err(Error::from_kernel_errno(result));
    }
    Ok(Registration { marker: core::marker::PhantomData })
}

} // verus!
