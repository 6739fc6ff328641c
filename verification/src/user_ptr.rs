use vstd::prelude::*;

use crate::error::{Error, KernelResult, EFAULT};

verus! {

/// Upper end of the address range that counts as legitimately addressable
/// from the caller side (the first three gigabytes, as on a 32-bit split).
/// Construction of a slice checks its range against this limit; whether the
/// range is actually mapped is checked again by every copy operation.
pub const USER_ADDR_LIMIT: usize = 0xc000_0000;

/// Largest byte count a single copy operation may move: the underlying copy
/// primitive takes a 32-bit count.
pub const MAX_COPY_LEN: usize = 0xffff_ffff;

/// The range check done once at construction: the whole range must lie
/// below `USER_ADDR_LIMIT`.
pub open spec fn access_ok(addr: int, len: int) -> bool {
    addr + len <= USER_ADDR_LIMIT
}

/// `mem` with the bytes at `addr .. addr + data.len()` replaced by `data`.
pub open spec fn store_bytes(mem: Seq<u8>, addr: int, data: Seq<u8>) -> Seq<u8>
    recommends
        0 <= addr,
        addr + data.len() <= mem.len(),
{
    mem.subrange(0, addr) + data + mem.subrange(addr + data.len(), mem.len() as int)
}

/// Caller-side memory as the copy primitives see it: the bytes currently
/// mapped at addresses `0 .. len`. An address may pass the range check of
/// `access_ok` and still lie outside the mapped range; a copy that touches
/// such an address faults, and the accessor reports the fault without
/// consuming anything.
pub struct UserMemory {
    bytes: Vec<u8>,
}

impl UserMemory {
    pub closed spec fn view(self) -> Seq<u8> {
        self.bytes@
    }

    pub fn new(bytes: Vec<u8>) -> (m: UserMemory)
        ensures
            m@ == bytes@,
    {
        UserMemory { bytes }
    }

    pub fn len(&self) -> (n: usize)
        ensures
            n == self@.len(),
    {
        self.bytes.len()
    }

    /// Hands the mapped bytes back, for inspection after the accessor is done.
    pub fn into_bytes(self) -> (b: Vec<u8>)
        ensures
            b@ == self@,
    {
        self.bytes
    }
}

/// A reference to an area in caller-side memory, checked once at
/// construction against the legal address range. Reads and writes go
/// through a `UserSlicePtrReader` or `UserSlicePtrWriter`, each of which
/// only moves forward: a given byte of the area is consumed at most once,
/// which rules out double fetches of the same location.
#[derive(Debug)]
pub struct UserSlicePtr {
    addr: usize,
    len: usize,
}

impl UserSlicePtr {
    pub closed spec fn addr(self) -> int {
        self.addr as int
    }

    pub closed spec fn length(self) -> int {
        self.len as int
    }

    pub open spec fn wf(self) -> bool {
        0 <= self.addr() && 0 <= self.length() && access_ok(self.addr(), self.length())
    }

    /// Constructs a slice over `addr .. addr + len`, checking the range
    /// (but not whether it is mapped, which only the copy operations see).
    pub fn new(addr: usize, len: usize) -> (r: KernelResult<UserSlicePtr>)
        ensures
            r is Ok <==> access_ok(addr as int, len as int),
            r matches Ok(p) ==> p.addr() == addr && p.length() == len,
            r matches Err(e) ==> e@ == EFAULT as int,
    {
        if addr > USER_ADDR_LIMIT || len > USER_ADDR_LIMIT - addr {
            return Err(Error::from_kernel_errno(EFAULT));
        }
        Ok(UserSlicePtr { addr, len })
    }

    /// Reads the entire slice in one unit.
    pub fn read_all(self, mem: &UserMemory) -> (r: KernelResult<Vec<u8>>)
        requires
            self.wf(),
        ensures
            r is Ok <==> self.length() <= MAX_COPY_LEN && self.addr() + self.length() <= mem@.len(),
            r matches Ok(data) ==> data@ == mem@.subrange(self.addr(), self.addr() + self.length()),
            r matches Err(e) ==> e@ == EFAULT as int,
    {
        self.reader().read_all(mem)
    }

    /// Starts an incremental, forward-only reader over the slice.
    pub fn reader(self) -> (r: UserSlicePtrReader)
        ensures
            r.addr() == self.addr(),
            r.remaining() == self.length(),
    {
        UserSlicePtrReader { addr: self.addr, len: self.len }
    }

    /// Writes `data` into the slice, erring if it does not fit.
    pub fn write_all(self, mem: &mut UserMemory, data: &[u8]) -> (r: KernelResult<()>)
        requires
            self.wf(),
        ensures
            r is Ok <==> data@.len() <= self.length() && data@.len() <= MAX_COPY_LEN
                && self.addr() + data@.len() <= old(mem)@.len(),
            r is Ok ==> final(mem)@ == store_bytes(old(mem)@, self.addr(), data@),
            r is Err ==> final(mem)@ == old(mem)@,
            r matches Err(e) ==> e@ == EFAULT as int,
    {
        self.writer().write(mem, data)
    }

    /// Starts an incremental, forward-only writer over the slice.
    pub fn writer(self) -> (r: UserSlicePtrWriter)
        ensures
            r.addr() == self.addr(),
            r.remaining() == self.length(),
    {
        UserSlicePtrWriter { addr: self.addr, len: self.len }
    }
}

/// Forward-only reader over an area of caller-side memory. Each successful
/// read advances the cursor by exactly the bytes fetched; nothing moves it
/// backward, so no byte is ever fetched twice.
pub struct UserSlicePtrReader {
    addr: usize,
    len: usize,
}

impl UserSlicePtrReader {
    pub closed spec fn addr(self) -> int {
        self.addr as int
    }

    pub closed spec fn remaining(self) -> int {
        self.len as int
    }

    pub open spec fn wf(self) -> bool {
        0 <= self.addr() && 0 <= self.remaining() && access_ok(self.addr(), self.remaining())
    }

    /// The number of bytes not yet consumed. Even a read of fewer bytes may
    /// still fault if the range is not mapped.
    pub fn len(&self) -> (n: usize)
        ensures
            n == self.remaining(),
    {
        self.len
    }

    pub fn is_empty(&self) -> (b: bool)
        ensures
            b == (self.remaining() == 0),
    {
        self.len == 0
    }

    /// Reads all remaining bytes in one unit.
    pub fn read_all(&mut self, mem: &UserMemory) -> (r: KernelResult<Vec<u8>>)
        requires
            old(self).wf(),
        ensures
            final(self).wf(),
            r is Ok <==> old(self).remaining() <= MAX_COPY_LEN
                && old(self).addr() + old(self).remaining() <= mem@.len(),
            r matches Ok(data) ==> data@ == mem@.subrange(
                old(self).addr(),
                old(self).addr() + old(self).remaining(),
            ) && final(self).addr() == old(self).addr() + old(self).remaining()
                && final(self).remaining() == 0,
            r is Err ==> final(self).addr() == old(self).addr()
                && final(self).remaining() == old(self).remaining(),
            r matches Err(e) ==> e@ == EFAULT as int,
    {
        let n = self.len;
        self.read(mem, n)
    }

    /// Fetches the next `n` bytes. Fails with the bad-address error, without
    /// consuming anything, if `n` exceeds the remaining length, exceeds the
    /// copy primitive's ceiling, or runs past the mapped range.
    pub fn read(&mut self, mem: &UserMemory, n: usize) -> (r: KernelResult<Vec<u8>>)
        requires
            old(self).wf(),
        ensures
            final(self).wf(),
            r is Ok <==> n <= old(self).remaining() && n <= MAX_COPY_LEN
                && old(self).addr() + n <= mem@.len(),
            r matches Ok(data) ==> data@ == mem@.subrange(old(self).addr(), old(self).addr() + n)
                && final(self).addr() == old(self).addr() + n
                && final(self).remaining() == old(self).remaining() - n,
            r is Err ==> final(self).addr() == old(self).addr()
                && final(self).remaining() == old(self).remaining(),
            r matches Err(e) ==> e@ == EFAULT as int,
    {
        if n > self.len || n > MAX_COPY_LEN {
            return Err(Error::from_kernel_errno(EFAULT));
        }
        if self.addr > mem.bytes.len() || n > mem.bytes.len() - self.addr {
            return Err(Error::from_kernel_errno(EFAULT));
        }
        let mut data: Vec<u8> = Vec::new();
        let mut i: usize = 0;
        while i < n
            invariant
                i <= n,
                self.addr + n <= mem.bytes.len(),
                data@ == mem.bytes@.subrange(self.addr as int, self.addr + i),
            decreases n - i,
        {
            data.push(mem.bytes[self.addr + i]);
            proof {
                assert(data@ =~= mem.bytes@.subrange(self.addr as int, self.addr + i + 1));
            }
            i = i + 1;
        }
        self.addr = self.addr + n;
        self.len = self.len - n;
        Ok(data)
    }
}

/// Forward-only writer over an area of caller-side memory. Each successful
/// write advances the cursor by exactly the bytes stored; nothing moves it
/// backward, so no byte of the area is produced twice.
pub struct UserSlicePtrWriter {
    addr: usize,
    len: usize,
}

impl UserSlicePtrWriter {
    pub closed spec fn addr(self) -> int {
        self.addr as int
    }

    pub closed spec fn remaining(self) -> int {
        self.len as int
    }

    pub open spec fn wf(self) -> bool {
        0 <= self.addr() && 0 <= self.remaining() && access_ok(self.addr(), self.remaining())
    }

    /// The number of bytes not yet produced.
    pub fn len(&self) -> (n: usize)
        ensures
            n == self.remaining(),
    {
        self.len
    }

    pub fn is_empty(&self) -> (b: bool)
        ensures
            b == (self.remaining() == 0),
    {
        self.len == 0
    }

    /// Stores `data` at the cursor. Fails with the bad-address error, without
    /// storing anything, if `data` exceeds the remaining length, exceeds the
    /// copy primitive's ceiling, or runs past the mapped range.
    pub fn write(&mut self, mem: &mut UserMemory, data: &[u8]) -> (r: KernelResult<()>)
        requires
            old(self).wf(),
        ensures
            final(self).wf(),
            r is Ok <==> data@.len() <= old(self).remaining() && data@.len() <= MAX_COPY_LEN
                && old(self).addr() + data@.len() <= old(mem)@.len(),
            r is Ok ==> final(mem)@ == store_bytes(old(mem)@, old(self).addr(), data@)
                && final(self).addr() == old(self).addr() + data@.len()
                && final(self).remaining() == old(self).remaining() - data@.len(),
            r is Err ==> final(mem)@ == old(mem)@ && final(self).addr() == old(self).addr()
                && final(self).remaining() == old(self).remaining(),
            r matches Err(e) ==> e@ == EFAULT as int,
    {
        let n = data.len();
        if n > self.len || n > MAX_COPY_LEN {
            return Err(Error::from_kernel_errno(EFAULT));
        }
        if self.addr > mem.bytes.len() || n > mem.bytes.len() - self.addr {
            return Err(Error::from_kernel_errno(EFAULT));
        }
        let mut i: usize = 0;
        while i < n
            invariant
                i <= n,
                n == data@.len(),
                self.addr + n <= mem.bytes.len(),
                mem.bytes@.len() == old(mem)@.len(),
                mem.bytes@.subrange(0, self.addr as int) == old(mem)@.subrange(0, self.addr as int),
                mem.bytes@.subrange(self.addr as int, self.addr + i) == data@.subrange(0, i as int),
                mem.bytes@.subrange(self.addr + n, mem.bytes@.len() as int) == old(mem)@.subrange(
                    self.addr + n,
                    old(mem)@.len() as int,
                ),
                mem.bytes@.subrange(self.addr + i, self.addr + n) == old(mem)@.subrange(
                    self.addr + i,
                    self.addr + n,
                ),
            decreases n - i,
        {
            let ghost pre = mem.bytes@;
            mem.bytes.set(self.addr + i, data[i]);
            proof {
                lemma_set_subranges(pre, mem.bytes@, self.addr as int, i as int, n as int, data@, old(mem)@);
            }
            i = i + 1;
        }
        proof {
            assert(data@.subrange(0, n as int) =~= data@);
            lemma_eq_by_parts(mem.bytes@, old(mem)@, data@, self.addr as int, n as int);
        }
        self.addr = self.addr + n;
        self.len = self.len - n;
        Ok(())
    }
}

proof fn lemma_set_subranges(
    pre: Seq<u8>,
    post: Seq<u8>,
    addr: int,
    i: int,
    n: int,
    data: Seq<u8>,
    orig: Seq<u8>,
)
    requires
        0 <= i < n,
        n == data.len(),
        0 <= addr,
        addr + n <= pre.len(),
        pre.len() == orig.len(),
        post == pre.update(addr + i, data[i]),
        pre.subrange(0, addr) == orig.subrange(0, addr),
        pre.subrange(addr, addr + i) == data.subrange(0, i),
        pre.subrange(addr + n, pre.len() as int) == orig.subrange(addr + n, orig.len() as int),
        pre.subrange(addr + i, addr + n) == orig.subrange(addr + i, addr + n),
    ensures
        post.len() == orig.len(),
        post.subrange(0, addr) == orig.subrange(0, addr),
        post.subrange(addr, addr + i + 1) == data.subrange(0, i + 1),
        post.subrange(addr + n, post.len() as int) == orig.subrange(addr + n, orig.len() as int),
        post.subrange(addr + i + 1, addr + n) == orig.subrange(addr + i + 1, addr + n),
{
    assert(post.subrange(0, addr) =~= orig.subrange(0, addr));
    assert(post.subrange(addr, addr + i + 1) =~= data.subrange(0, i + 1));
    assert(post.subrange(addr + n, post.len() as int) =~= orig.subrange(
        addr + n,
        orig.len() as int,
    ));
    assert forall|j: int| 0 <= j < n - i - 1 implies #[trigger] post.subrange(addr + i + 1, addr + n)[j]
        == orig.subrange(addr + i + 1, addr + n)[j] by {
        let m = addr + i + 1 + j;
        assert(post.subrange(addr + i + 1, addr + n)[j] == post[m]);
        assert(post[m] == pre.update(addr + i, data[i])[m]);
        assert(pre.update(addr + i, data[i])[m] == pre[m]);
        assert(pre.subrange(addr + i, addr + n)[j + 1] == pre[m]);
        assert(pre.subrange(addr + i, addr + n)[j + 1] == orig.subrange(addr + i, addr + n)[j + 1]);
        assert(orig.subrange(addr + i, addr + n)[j + 1] == orig[m]);
        assert(orig.subrange(addr + i + 1, addr + n)[j] == orig[m]);
    }
    assert(post.subrange(addr + i + 1, addr + n) =~= orig.subrange(addr + i + 1, addr + n));
}

proof fn lemma_eq_by_parts(s: Seq<u8>, orig: Seq<u8>, data: Seq<u8>, addr: int, n: int)
    requires
        0 <= addr,
        addr + n <= s.len(),
        s.len() == orig.len(),
        n == data.len(),
        s.subrange(0, addr) == orig.subrange(0, addr),
        s.subrange(addr, addr + n) == data,
        s.subrange(addr + n, s.len() as int) == orig.subrange(addr + n, orig.len() as int),
    ensures
        s == store_bytes(orig, addr, data),
{
    assert forall|j: int| 0 <= j < s.len() implies s[j] == store_bytes(orig, addr, data)[j] by {
        if j < addr {
            assert(s.subrange(0, addr)[j] == orig.subrange(0, addr)[j]);
        } else if j < addr + n {
            assert(s.subrange(addr, addr + n)[j - addr] == data[j - addr]);
        } else {
            assert(s.subrange(addr + n, s.len() as int)[j - addr - n] == orig.subrange(
                addr + n,
                orig.len() as int,
            )[j - addr - n]);
        }
    }
    assert(s =~= store_bytes(orig, addr, data));
}

/// Forward-only consumption, stated as a law: two successive successful
/// reads, of `n1` and then `n2` bytes, fetch disjoint address ranges, so no
/// byte of the area is ever fetched twice through one reader.
pub proof fn lemma_forward_only_no_refetch(
    r0: UserSlicePtrReader,
    r1: UserSlicePtrReader,
    r2: UserSlicePtrReader,
    n1: int,
    n2: int,
)
    requires
        0 <= n1,
        0 <= n2,
        r1.addr() == r0.addr() + n1,
        r1.remaining() == r0.remaining() - n1,
        r2.addr() == r1.addr() + n2,
        r2.remaining() == r1.remaining() - n2,
    ensures
        r0.addr() + n1 <= r1.addr(),
        r1.addr() + n2 <= r2.addr(),
        r2.remaining() == r0.remaining() - n1 - n2,
{
}

/// What `store_bytes` does pointwise: bytes inside the stored range come
/// from `data`, all others keep their old value.
pub proof fn lemma_store_bytes_frame(orig: Seq<u8>, addr: int, data: Seq<u8>)
    requires
        0 <= addr,
        addr + data.len() <= orig.len(),
    ensures
        store_bytes(orig, addr, data).len() == orig.len(),
        forall|j: int|
            0 <= j < orig.len() && !(addr <= j < addr + data.len()) ==> #[trigger] store_bytes(
                orig,
                addr,
                data,
            )[j] == orig[j],
        forall|j: int|
            0 <= j < data.len() ==> #[trigger] store_bytes(orig, addr, data)[addr + j] == data[j],
{
    let s = store_bytes(orig, addr, data);
    assert forall|j: int|
        0 <= j < orig.len() && !(addr <= j < addr + data.len()) implies #[trigger] s[j]
        == orig[j] by {
        if j < addr {
            assert(s[j] == orig.subrange(0, addr)[j]);
        } else {
            assert(s[j] == orig.subrange(addr + data.len(), orig.len() as int)[j - addr
                - data.len()]);
        }
    }
    assert forall|j: int| 0 <= j < data.len() implies #[trigger] s[addr + j] == data[j] by {
        assert(s[addr + j] == data[addr + j - addr]);
    }
}

} // verus!
