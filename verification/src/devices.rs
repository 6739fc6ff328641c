use vstd::prelude::*;
use vstd::pervasive::unreached;

use crate::error::{KernelResult, EFAULT};
use crate::file_operations::{File, FileOperations, SeekFrom};
use crate::filesystem::{
    FileSystem, FileSystemFlags, FS_BINARY_MOUNTDATA, FS_HAS_SUBTYPE, FS_REQUIRES_DEV,
    FS_RENAME_DOES_D_MOVE, FS_USERNS_MOUNT,
};
use crate::types::CStr;
use crate::user_ptr::{
    lemma_store_bytes_frame, store_bytes, UserMemory, UserSlicePtrReader, UserSlicePtrWriter,
    MAX_COPY_LEN,
};

verus! {

/// Byte at position `i` of a read starting at `offset` from the cyclic
/// digit source: the digits one through nine, repeating.
pub open spec fn cycle_byte(offset: int, i: int) -> u8
    recommends
        0 <= offset,
        0 <= i,
{
    (49 + (offset % 9 + i) % 9) as u8
}

proof fn lemma_mod9_step(a: int)
    requires
        a >= 0,
    ensures
        (a + 1) % 9 == if a % 9 == 8 {
            0int
        } else {
            a % 9 + 1
        },
{
    let q = a / 9;
    let r = a % 9;
    vstd::arithmetic::div_mod::lemma_fundamental_div_mod(a, 9);
    if r == 8 {
        vstd::arithmetic::div_mod::lemma_fundamental_div_mod_converse(a + 1, 9, q + 1, 0);
    } else {
        vstd::arithmetic::div_mod::lemma_fundamental_div_mod_converse(a + 1, 9, q, r + 1);
    }
}

/// The `n` bytes a read starting at `offset` yields from the cyclic digit
/// source.
pub fn cycle_bytes(offset: u64, n: usize) -> (v: Vec<u8>)
    ensures
        v@.len() == n,
        forall|k: int| 0 <= k < n ==> v@[k] == cycle_byte(offset as int, k),
{
    let mut v: Vec<u8> = Vec::new();
    let mut idx: u64 = offset % 9;
    proof {
        vstd::arithmetic::div_mod::lemma_small_mod((offset as int % 9) as nat, 9);
    }
    let mut i: usize = 0;
    while i < n
        invariant
            i <= n,
            v@.len() == i,
            idx < 9,
            idx == (offset as int % 9 + i) % 9,
            forall|k: int| 0 <= k < i ==> v@[k] == cycle_byte(offset as int, k),
        decreases n - i,
    {
        v.push(49 + idx as u8);
        proof {
            lemma_mod9_step(offset as int % 9 + i);
        }
        idx = if idx == 8 {
            0
        } else {
            idx + 1
        };
        i = i + 1;
    }
    v
}

/// The decimal digits of `n`, most significant first.
pub open spec fn decimal_digits(n: nat) -> Seq<u8>
    decreases n,
{
    if n < 10 {
        seq![(48 + n) as u8]
    } else {
        decimal_digits(n / 10).push((48 + n % 10) as u8)
    }
}

/// Formats `n` in decimal.
pub fn decimal_text(n: usize) -> (v: Vec<u8>)
    ensures
        v@ == decimal_digits(n as nat),
    decreases n,
{
    if n < 10 {
        let mut v: Vec<u8> = Vec::new();
        v.push(48 + n as u8);
        proof {
            assert(v@ =~= decimal_digits(n as nat));
        }
        v
    } else {
        let mut v = decimal_text(n / 10);
        v.push(48 + (n % 10) as u8);
        v
    }
}

/// A read-only handle kind that yields the digits one through nine,
/// cycling, starting at the read position modulo nine.
pub struct CycleFile;

impl FileOperations for CycleFile {
    open spec fn has_read() -> bool {
        true
    }

    open spec fn has_write() -> bool {
        false
    }

    open spec fn has_seek() -> bool {
        false
    }

    fn supports_read() -> (b: bool) {
        true
    }

    fn supports_write() -> (b: bool) {
        false
    }

    fn supports_seek() -> (b: bool) {
        false
    }

    fn open() -> (r: KernelResult<Self>) {
        Ok(CycleFile)
    }

    /// Fills the whole buffer with the cycle digits that start at the read
    /// position; fails only when the buffer is not mapped.
    fn read(
        &self,
        _file: &File,
        data: &mut UserSlicePtrWriter,
        mem: &mut UserMemory,
        offset: u64,
    ) -> (r: KernelResult<()>)
        ensures
            r is Ok <==> old(data).addr() + old(data).remaining() <= old(mem)@.len(),
            r is Ok ==> final(data).remaining() == 0 && final(mem)@ == store_bytes(
                old(mem)@,
                old(data).addr(),
                Seq::new(old(data).remaining() as nat, |i: int| cycle_byte(offset as int, i)),
            ),
            r matches Err(e) ==> e@ == EFAULT as int,
    {
        let n = data.len();
        let text = cycle_bytes(offset, n);
        let ghost pre_mem = mem@;
        let ghost pre_data = *data;
        let res = data.write(mem, text.as_slice());
        proof {
            if res is Ok {
                assert(text@ =~= Seq::new(pre_data.remaining() as nat, |i: int| cycle_byte(offset as int, i)));
                lemma_store_bytes_frame(pre_mem, pre_data.addr(), text@);
                assert forall|j: int|
                    0 <= j < pre_mem.len() && !(pre_data.addr() <= j < data.addr()) implies mem@[j]
                    == pre_mem[j] by {
                    assert(store_bytes(pre_mem, pre_data.addr(), text@)[j] == pre_mem[j]);
                }
            }
        }
        res
    }

    fn write(
        &mut self,
        _data: &mut UserSlicePtrReader,
        _mem: &UserMemory,
        _offset: u64,
    ) -> (r: KernelResult<()>) {
        unreached()
    }

    fn seek(&self, _file: &File, _pos: SeekFrom) -> (r: KernelResult<u64>) {
        unreached()
    }
}

/// A handle kind that supports only seeking and answers every request with
/// the same fixed position.
pub struct SeekFile;

impl FileOperations for SeekFile {
    open spec fn has_read() -> bool {
        false
    }

    open spec fn has_write() -> bool {
        false
    }

    open spec fn has_seek() -> bool {
        true
    }

    fn supports_read() -> (b: bool) {
        false
    }

    fn supports_write() -> (b: bool) {
        false
    }

    fn supports_seek() -> (b: bool) {
        true
    }

    fn open() -> (r: KernelResult<Self>) {
        Ok(SeekFile)
    }

    fn read(
        &self,
        _file: &File,
        _data: &mut UserSlicePtrWriter,
        _mem: &mut UserMemory,
        _offset: u64,
    ) -> (r: KernelResult<()>) {
        unreached()
    }

    fn write(
        &mut self,
        _data: &mut UserSlicePtrReader,
        _mem: &UserMemory,
        _offset: u64,
    ) -> (r: KernelResult<()>) {
        unreached()
    }

    /// Answers every request with the fixed position, whatever was asked.
    fn seek(&self, _file: &File, _pos: SeekFrom) -> (r: KernelResult<u64>)
        ensures
            r matches Ok(p) && p == 1234,
    {
        Ok(1234)
    }
}

/// A handle kind that counts the bytes written to it and reads back as the
/// decimal text of the running count.
pub struct WriteFile {
    written: usize,
}

impl WriteFile {
    /// The running byte count.
    pub closed spec fn count(self) -> usize {
        self.written
    }
}

impl FileOperations for WriteFile {
    open spec fn has_read() -> bool {
        true
    }

    open spec fn has_write() -> bool {
        true
    }

    open spec fn has_seek() -> bool {
        false
    }

    fn supports_read() -> (b: bool) {
        true
    }

    fn supports_write() -> (b: bool) {
        true
    }

    fn supports_seek() -> (b: bool) {
        false
    }

    /// The count starts at zero.
    fn open() -> (r: KernelResult<Self>)
        ensures
            r matches Ok(f) && f.count() == 0,
    {
        Ok(WriteFile { written: 0 })
    }

    /// Renders the decimal text of the running count through the writer;
    /// fails only when the text does not fit or the buffer is not mapped.
    fn read(
        &self,
        _file: &File,
        data: &mut UserSlicePtrWriter,
        mem: &mut UserMemory,
        _offset: u64,
    ) -> (r: KernelResult<()>)
        ensures
            r is Ok <==> decimal_digits(self.count() as nat).len() <= old(data).remaining()
                && decimal_digits(self.count() as nat).len() <= MAX_COPY_LEN && old(data).addr()
                + decimal_digits(self.count() as nat).len() <= old(mem)@.len(),
            r is Ok ==> final(data).remaining() == old(data).remaining() - decimal_digits(
                self.count() as nat,
            ).len() && final(mem)@ == store_bytes(
                old(mem)@,
                old(data).addr(),
                decimal_digits(self.count() as nat),
            ),
            r matches Err(e) ==> e@ == EFAULT as int,
    {
        let text = decimal_text(self.written);
        let ghost pre_mem = mem@;
        let ghost pre_data = *data;
        let res = data.write(mem, text.as_slice());
        proof {
            if res is Ok {
                lemma_store_bytes_frame(pre_mem, pre_data.addr(), text@);
                assert forall|j: int|
                    0 <= j < pre_mem.len() && !(pre_data.addr() <= j < data.addr()) implies mem@[j]
                    == pre_mem[j] by {
                    assert(store_bytes(pre_mem, pre_data.addr(), text@)[j] == pre_mem[j]);
                }
            }
        }
        res
    }

    /// Consumes the reader in full and adds the byte count to the running
    /// count, wrapping on overflow as the counter register would.
    fn write(
        &mut self,
        data: &mut UserSlicePtrReader,
        mem: &UserMemory,
        _offset: u64,
    ) -> (r: KernelResult<()>)
        ensures
            r is Ok <==> old(data).addr() + old(data).remaining() <= mem@.len(),
            r is Ok ==> final(data).remaining() == 0 && final(self).count() as int == (
            if old(self).count() + old(data).remaining() > usize::MAX {
                old(self).count() + old(data).remaining() - (usize::MAX as int + 1)
            } else {
                old(self).count() + old(data).remaining()
            }),
            r is Err ==> *final(self) == *old(self) && final(data).remaining() == old(
                data,
            ).remaining(),
            r matches Err(e) ==> e@ == EFAULT as int,
    {
        let bytes = match data.read_all(mem) {
            Ok(b) => b,
            Err(e) => {
                return Err(e);
            },
        };
        self.written = self.written.wrapping_add(bytes.len());
        Ok(())
    }

    fn seek(&self, _file: &File, _pos: SeekFrom) -> (r: KernelResult<u64>) {
        unreached()
    }
}

/// A filesystem kind that needs a backing device, for exercising the
/// registration path end to end.
pub struct Testfs;

impl FileSystem for Testfs {
    open spec fn spec_name() -> Seq<u8> {
        seq![116u8, 101u8, 115u8, 116u8, 102u8, 115u8, 0u8]
    }

    open spec fn spec_flags() -> i32 {
        FS_REQUIRES_DEV
    }

    fn name() -> (n: CStr) {
        let mut bytes: Vec<u8> = Vec::new();
        bytes.push(116);
        bytes.push(101);
        bytes.push(115);
        bytes.push(116);
        bytes.push(102);
        bytes.push(115);
        bytes.push(0);
        proof {
            assert(bytes@ =~= Self::spec_name());
            assert forall|i: int| 0 <= i < bytes@.len() - 1 implies #[trigger] bytes@[i] != 0 by {}
        }
        match CStr::new(bytes) {
            Ok(c) => c,
            Err(_) => unreached(),
        }
    }

    fn flags() -> (f: FileSystemFlags) {
        let f = FileSystemFlags::from_bits_truncate(FS_REQUIRES_DEV);
        proof {
            assert(FS_REQUIRES_DEV & (FS_REQUIRES_DEV | FS_BINARY_MOUNTDATA | FS_HAS_SUBTYPE
                | FS_USERNS_MOUNT | FS_RENAME_DOES_D_MOVE) == FS_REQUIRES_DEV) by (bit_vector);
        }
        f
    }
}

} // verus!
