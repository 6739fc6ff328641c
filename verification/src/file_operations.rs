use vstd::prelude::*;
use vstd::pervasive::unreached;

use crate::error::{Error, KernelResult, EFAULT, EINVAL};
use crate::user_ptr::{access_ok, UserMemory, UserSlicePtr, UserSlicePtrReader, UserSlicePtrWriter};

verus! {

/// Flag bit for non-blocking handles.
pub const O_NONBLOCK: u32 = 0x800;

/// Largest value a signed 64-bit position can take.
pub const LOFF_MAX: i64 = 0x7fff_ffff_ffff_ffff;

/// Raw code for a seek relative to the start of the file.
pub const SEEK_SET: i32 = 0;

/// Raw code for a seek relative to the current position.
pub const SEEK_CUR: i32 = 1;

/// Raw code for a seek relative to the end of the file.
pub const SEEK_END: i32 = 2;

/// The open-mode flags of a handle, masked down to the bits this layer knows.
#[derive(Clone, Copy, Debug)]
pub struct FileFlags {
    bits: u32,
}

impl FileFlags {
    pub closed spec fn view(self) -> u32 {
        self.bits
    }

    /// Keeps only the known flag bits, dropping the rest.
    pub fn from_bits_truncate(bits: u32) -> (f: FileFlags)
        ensures
            f@ == bits & O_NONBLOCK,
    {
        FileFlags { bits: bits & O_NONBLOCK }
    }

    pub fn bits(&self) -> (b: u32)
        ensures
            b == self@,
    {
        self.bits
    }

    /// The non-blocking flag by itself.
    pub fn nonblock() -> (f: FileFlags)
        ensures
            f@ == O_NONBLOCK,
    {
        FileFlags { bits: O_NONBLOCK }
    }

    pub fn contains(&self, other: &FileFlags) -> (b: bool)
        ensures
            b == (self@ & other@ == other@),
    {
        self.bits & other.bits == other.bits
    }
}

/// The host-visible state of one open handle, as a trampoline sees it:
/// the current position and the open-mode flags.
pub struct File {
    pos: u64,
    flags: u32,
}

impl File {
    pub closed spec fn spec_pos(self) -> u64 {
        self.pos
    }

    pub closed spec fn spec_flags(self) -> u32 {
        self.flags
    }

    pub fn new(pos: u64, flags: u32) -> (f: File)
        ensures
            f.spec_pos() == pos,
            f.spec_flags() == flags,
    {
        File { pos, flags }
    }

    pub fn pos(&self) -> (p: u64)
        ensures
            p == self.spec_pos(),
    {
        self.pos
    }

    pub fn flags(&self) -> (f: FileFlags)
        ensures
            f@ == self.spec_flags() & O_NONBLOCK,
    {
        FileFlags::from_bits_truncate(self.flags)
    }
}

/// A seek request, after decoding the raw offset and whence code.
#[derive(Clone, Copy, Debug, PartialEq, Eq, Structural)]
pub enum SeekFrom {
    Start(u64),
    End(i64),
    Current(i64),
}

/// All writes `post` makes over `pre` stay inside `lo .. hi`: every byte
/// outside that range keeps its old value.
pub open spec fn writes_confined(pre: Seq<u8>, post: Seq<u8>, lo: int, hi: int) -> bool {
    &&& post.len() == pre.len()
    &&& forall|j: int| 0 <= j < pre.len() && !(lo <= j < hi) ==> #[trigger] post[j] == pre[j]
}

/// The capability interface an extension author implements for a handle
/// kind. `open` is required; the optional capabilities are announced by the
/// `has_*`/`supports_*` pairs, and only announced capabilities are ever
/// called, so an implementation decides at build time which callback slots
/// exist. Errors must be reported as negative status values.
pub trait FileOperations: Sized {
    /// Whether this implementation provides the read capability.
    spec fn has_read() -> bool;

    /// Whether this implementation provides the write capability.
    spec fn has_write() -> bool;

    /// Whether this implementation provides the seek capability.
    spec fn has_seek() -> bool;

    fn supports_read() -> (b: bool)
        ensures
            b == Self::has_read(),
    ;

    fn supports_write() -> (b: bool)
        ensures
            b == Self::has_write(),
    ;

    fn supports_seek() -> (b: bool)
        ensures
            b == Self::has_seek(),
    ;

    /// Creates the per-handle state when a handle is opened.
    fn open() -> (r: KernelResult<Self>)
        ensures
            r matches Err(e) ==> e@ < 0,
    ;

    /// Fills caller memory through `data`, a forward-only writer over the
    /// caller's buffer. May only touch the bytes it produces through `data`.
    fn read(
        &self,
        file: &File,
        data: &mut UserSlicePtrWriter,
        mem: &mut UserMemory,
        offset: u64,
    ) -> (r: KernelResult<()>)
        requires
            Self::has_read(),
            old(data).wf(),
        ensures
            final(data).wf(),
            final(data).remaining() <= old(data).remaining(),
            final(data).addr() == old(data).addr() + old(data).remaining()
                - final(data).remaining(),
            writes_confined(old(mem)@, final(mem)@, old(data).addr(), final(data).addr()),
            r matches Err(e) ==> e@ < 0,
    ;

    /// Consumes caller memory through `data`, a forward-only reader over the
    /// caller's buffer.
    fn write(
        &mut self,
        data: &mut UserSlicePtrReader,
        mem: &UserMemory,
        offset: u64,
    ) -> (r: KernelResult<()>)
        requires
            Self::has_write(),
            old(data).wf(),
        ensures
            final(data).wf(),
            final(data).remaining() <= old(data).remaining(),
            final(data).addr() == old(data).addr() + old(data).remaining()
                - final(data).remaining(),
            r matches Err(e) ==> e@ < 0,
    ;

    /// Answers a seek request with the new position, which must fit the
    /// signed 64-bit position domain.
    fn seek(&self, file: &File, pos: SeekFrom) -> (r: KernelResult<u64>)
        requires
            Self::has_seek(),
        ensures
            r matches Ok(p) ==> p <= LOFF_MAX as u64,
            r matches Err(e) ==> e@ < 0,
    ;
}

/// The callback table built for one capability implementation: which slots
/// are populated. Selection happens entirely at build time from the
/// capabilities the implementation announces; a slot left absent is reported
/// by the host itself as "not supported" and never reaches this layer.
#[derive(Clone, Copy, Debug, PartialEq, Eq, Structural)]
pub struct FileOperationsVtable {
    pub has_open: bool,
    pub has_release: bool,
    pub has_read: bool,
    pub has_write: bool,
    pub has_seek: bool,
}

/// Builds the callback table for `T`. Open and release are always present;
/// the optional slots exist exactly when `T` announces the capability.
pub fn vtable_for<T: FileOperations>() -> (v: FileOperationsVtable)
    ensures
        v.has_open,
        v.has_release,
        v.has_read == T::has_read(),
        v.has_write == T::has_write(),
        v.has_seek == T::has_seek(),
{
    FileOperationsVtable {
        has_open: true,
        has_release: true,
        has_read: T::supports_read(),
        has_write: T::supports_write(),
        has_seek: T::supports_seek(),
    }
}

/// The opaque per-handle slot the host keeps for one open handle. A
/// successful open stores the capability implementation here; release takes
/// it out again and lets it drop, exactly once, after which the slot is
/// empty and unusable.
pub struct HandleSlot<T> {
    state: Option<T>,
}

impl<T> HandleSlot<T> {
    pub closed spec fn is_open(self) -> bool {
        self.state is Some
    }

    pub closed spec fn value(self) -> T
        recommends
            self.is_open(),
    {
        self.state->0
    }

    /// A fresh slot, as the host hands it to the open trampoline.
    pub fn new() -> (s: HandleSlot<T>)
        ensures
            !s.is_open(),
    {
        HandleSlot { state: None }
    }

    /// Shared access to the stored state.
    pub fn borrow_state(&self) -> (f: &T)
        requires
            self.is_open(),
        ensures
            *f == self.value(),
    {
        match &self.state {
            Some(f) => f,
            None => unreached(),
        }
    }

    /// Exclusive access to the stored state; the slot stays open.
    pub fn borrow_state_mut(&mut self) -> (f: &mut T)
        requires
            old(self).is_open(),
        ensures
            *f == old(self).value(),
            final(self).is_open(),
            final(self).value() == *final(f),
    {
        match &mut self.state {
            Some(f) => f,
            None => unreached(),
        }
    }
}

/// The open trampoline: runs the implementation's constructor and, on
/// success, stores the new state in the handle slot, transferring ownership
/// to the host for the life of the handle. On failure nothing is stored and
/// the negative status is handed back.
pub fn open_callback<T: FileOperations>(slot: &mut HandleSlot<T>) -> (r: i32)
    requires
        !old(slot).is_open(),
    ensures
        r == 0 ==> final(slot).is_open(),
        r != 0 ==> !final(slot).is_open() && r < 0,
{
    match T::open() {
        Ok(f) => {
            slot.state = Some(f);
            0
        },
        Err(e) => e.to_kernel_errno(),
    }
}

/// The release trampoline: clears the handle slot and drops the state it
/// held. This is the only place the state is ever freed, and the host calls
/// it exactly once per successful open.
pub fn release_callback<T: FileOperations>(slot: &mut HandleSlot<T>) -> (r: i32)
    requires
        old(slot).is_open(),
    ensures
        r == 0,
        !final(slot).is_open(),
{
    slot.state = None;
    0
}

/// The read trampoline. Validates the caller's buffer range, rejects a
/// negative or overflowing position as an invalid argument, then runs the
/// implementation's read with a forward-only writer over the buffer. A
/// non-negative result is the byte count produced, the position advances by
/// exactly that count, and nothing outside the buffer is touched; on any
/// failure the position does not move.
pub fn read_callback<T: FileOperations>(
    slot: &HandleSlot<T>,
    file: &File,
    mem: &mut UserMemory,
    buf: usize,
    len: usize,
    offset: &mut i64,
) -> (r: i64)
    requires
        slot.is_open(),
        T::has_read(),
    ensures
        final(mem)@.len() == old(mem)@.len(),
        !access_ok(buf as int, len as int) ==> r == EFAULT as i64 && *final(offset) == *old(offset) && final(mem)@ == old(mem)@,
        access_ok(buf as int, len as int) && *old(offset) < 0 ==> r == EINVAL as i64 && *final(offset) == *old(offset) && final(mem)@ == old(mem)@,
        access_ok(buf as int, len as int) && *old(offset) >= 0 && len as int > LOFF_MAX - *old(offset) ==> r == EINVAL as i64 && *final(offset) == *old(offset) && final(mem)@ == old(mem)@,
        r >= 0 ==> r <= len && *final(offset) == *old(offset) + r && writes_confined(
            old(mem)@,
            final(mem)@,
            buf as int,
            buf + r,
        ),
        r < 0 ==> *final(offset) == *old(offset),
{
    let mut data = match UserSlicePtr::new(buf, len) {
        Ok(p) => p.writer(),
        Err(e) => {
            let k = e.to_kernel_errno();
            return k as i64;
        },
    };
    if *offset < 0 {
        return EINVAL as i64;
    }
    if len as u64 > (LOFF_MAX - *offset) as u64 {
        return EINVAL as i64;
    }
    let pos: u64 = *offset as u64;
    match T::read(slot.borrow_state(), file, &mut data, mem, pos) {
        Ok(()) => {
            let written = len - data.len();
            *offset = *offset + written as i64;
            written as i64
        },
        Err(e) => {
            let k = e.to_kernel_errno();
            k as i64
        },
    }
}

/// The write trampoline. Validates the caller's buffer range, rejects a
/// negative or overflowing position as an invalid argument, then runs the
/// implementation's write with a forward-only reader over the buffer. A
/// non-negative result is the byte count consumed and the position advances
/// by exactly that count; on any failure the position does not move.
pub fn write_callback<T: FileOperations>(
    slot: &mut HandleSlot<T>,
    mem: &UserMemory,
    buf: usize,
    len: usize,
    offset: &mut i64,
) -> (r: i64)
    requires
        old(slot).is_open(),
        T::has_write(),
    ensures
        final(slot).is_open(),
        !access_ok(buf as int, len as int) ==> r == EFAULT as i64 && *final(offset) == *old(offset),
        access_ok(buf as int, len as int) && *old(offset) < 0 ==> r == EINVAL as i64 && *final(offset) == *old(offset),
        access_ok(buf as int, len as int) && *old(offset) >= 0 && len as int > LOFF_MAX - *old(offset) ==> r == EINVAL as i64 && *final(offset) == *old(offset),
        r >= 0 ==> r <= len && *final(offset) == *old(offset) + r,
        r < 0 ==> *final(offset) == *old(offset),
{
    let mut data = match UserSlicePtr::new(buf, len) {
        Ok(p) => p.reader(),
        Err(e) => {
            let k = e.to_kernel_errno();
            return k as i64;
        },
    };
    if *offset < 0 {
        return EINVAL as i64;
    }
    if len as u64 > (LOFF_MAX - *offset) as u64 {
        return EINVAL as i64;
    }
    let pos: u64 = *offset as u64;
    match T::write(slot.borrow_state_mut(), &mut data, mem, pos) {
        Ok(()) => {
            let consumed = len - data.len();
            *offset = *offset + consumed as i64;
            consumed as i64
        },
        Err(e) => {
            let k = e.to_kernel_errno();
            k as i64
        },
    }
}

/// Decodes a raw offset and whence code into a typed seek request: a seek
/// from the start must carry a non-negative offset, and the whence code
/// must be one of the three known ones; anything else is an invalid
/// argument. What this hands back is exactly what the implementation's
/// seek is invoked with.
pub fn decode_seek(offset: i64, whence: i32) -> (r: KernelResult<SeekFrom>)
    ensures
        whence == SEEK_SET && offset >= 0 ==> r == Ok::<SeekFrom, Error>(
            SeekFrom::Start(offset as u64),
        ),
        whence == SEEK_CUR ==> r == Ok::<SeekFrom, Error>(SeekFrom::Current(offset)),
        whence == SEEK_END ==> r == Ok::<SeekFrom, Error>(SeekFrom::End(offset)),
        (whence == SEEK_SET && offset < 0) || (whence != SEEK_SET && whence != SEEK_CUR && whence
            != SEEK_END) ==> (r matches Err(e) && e@ == EINVAL as int),
{
    if whence == SEEK_SET {
        if offset < 0 {
            return Err(Error::from_kernel_errno(EINVAL));
        }
        Ok(SeekFrom::Start(offset as u64))
    } else if whence == SEEK_CUR {
        Ok(SeekFrom::Current(offset))
    } else if whence == SEEK_END {
        Ok(SeekFrom::End(offset))
    } else {
        Err(Error::from_kernel_errno(EINVAL))
    }
}

/// The seek trampoline. Decodes the raw whence code and offset into a typed
/// request, rejecting an unknown code or a negative start offset as an
/// invalid argument, and hands back either the new position or the negative
/// status the implementation reported.
pub fn llseek_callback<T: FileOperations>(
    slot: &HandleSlot<T>,
    file: &File,
    offset: i64,
    whence: i32,
) -> (r: i64)
    requires
        slot.is_open(),
        T::has_seek(),
    ensures
        whence == SEEK_SET && offset < 0 ==> r == EINVAL as i64,
        whence != SEEK_SET && whence != SEEK_CUR && whence != SEEK_END ==> r == EINVAL as i64,
        r >= 0 ==> (whence == SEEK_SET || whence == SEEK_CUR || whence == SEEK_END) && (whence
            == SEEK_SET ==> offset >= 0),
{
    let from = match decode_seek(offset, whence) {
        Ok(f) => f,
        Err(e) => {
            let k = e.to_kernel_errno();
            return k as i64;
        },
    };
    match T::seek(slot.borrow_state(), file, from) {
        Ok(p) => p as i64,
        Err(e) => {
            let k = e.to_kernel_errno();
            k as i64
        },
    }
}

} // verus!
