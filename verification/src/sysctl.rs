use vstd::prelude::*;
use vstd::slice::slice_subrange;

use crate::error::{Error, KernelResult, EFAULT, EINVAL, ENOMEM};
use crate::file_operations::{writes_confined, LOFF_MAX};
use crate::types::{CStr, Mode};
use crate::user_ptr::{
    access_ok, lemma_store_bytes_frame, store_bytes, UserMemory, UserSlicePtr, UserSlicePtrWriter,
};

verus! {

/// The whitespace bytes a textual sysctl value may be padded with.
pub open spec fn is_space(b: u8) -> bool {
    b == 32 || b == 9 || b == 10
}

pub open spec fn trim_front(s: Seq<u8>) -> Seq<u8>
    decreases s.len(),
{
    if s.len() > 0 && is_space(s[0]) {
        trim_front(s.drop_first())
    } else {
        s
    }
}

pub open spec fn trim_back(s: Seq<u8>) -> Seq<u8>
    decreases s.len(),
{
    if s.len() > 0 && is_space(s[s.len() - 1]) {
        trim_back(s.drop_last())
    } else {
        s
    }
}

/// `s` with leading and trailing whitespace removed.
pub open spec fn spec_trim(s: Seq<u8>) -> Seq<u8> {
    trim_back(trim_front(s))
}

/// Strips leading and trailing space, tab and newline bytes.
pub fn trim_whitespace(data: &[u8]) -> (r: &[u8])
    ensures
        r@ == spec_trim(data@),
{
    let n = data.len();
    proof {
        assert(data@.subrange(0, n as int) =~= data@);
    }
    let mut start: usize = 0;
    while start < n && (data[start] == 32 || data[start] == 9 || data[start] == 10)
        invariant
            start <= n,
            n == data@.len(),
            trim_front(data@) == trim_front(data@.subrange(start as int, n as int)),
        decreases n - start,
    {
        proof {
            let s = data@.subrange(start as int, n as int);
            assert(s.drop_first() =~= data@.subrange(start as int + 1, n as int));
        }
        start = start + 1;
    }
    proof {
        assert(data@.subrange(0, n as int) =~= data@);
        assert(trim_front(data@) == data@.subrange(start as int, n as int));
    }
    let mut end: usize = n;
    while end > start && (data[end - 1] == 32 || data[end - 1] == 9 || data[end - 1] == 10)
        invariant
            start <= end <= n,
            n == data@.len(),
            trim_front(data@) == data@.subrange(start as int, n as int),
            trim_back(data@.subrange(start as int, n as int)) == trim_back(
                data@.subrange(start as int, end as int),
            ),
        decreases end,
    {
        proof {
            let s = data@.subrange(start as int, end as int);
            assert(s.drop_last() =~= data@.subrange(start as int, end as int - 1));
        }
        end = end - 1;
    }
    let r = slice_subrange(data, start, end);
    proof {
        assert(trim_back(data@.subrange(start as int, end as int)) == data@.subrange(
            start as int,
            end as int,
        ));
    }
    r
}

/// The typed value behind one dynamic configuration entry. `store_value`
/// takes the text written across the boundary; `read_value` renders the
/// current value through a forward-only writer. Both report how many bytes
/// they handled, and errors as negative statuses.
pub trait SysctlStorage {
    fn store_value(&mut self, data: &[u8]) -> (r: (usize, KernelResult<()>))
        ensures
            r.1 matches Err(e) ==> e@ < 0,
    ;

    fn read_value(&self, data: &mut UserSlicePtrWriter, mem: &mut UserMemory) -> (r: (
        usize,
        KernelResult<()>,
    ))
        requires
            old(data).wf(),
        ensures
            final(data).wf(),
            final(data).remaining() <= old(data).remaining(),
            final(data).addr() == old(data).addr() + old(data).remaining()
                - final(data).remaining(),
            writes_confined(old(mem)@, final(mem)@, old(data).addr(), final(data).addr()),
            r.1 matches Err(e) ==> e@ < 0,
    ;
}

impl SysctlStorage for bool {
    /// Accepts the text `0` or `1`, padded with whitespace; anything else is
    /// an invalid argument and leaves the value unchanged. Always reports
    /// the whole input as consumed.
    fn store_value(&mut self, data: &[u8]) -> (r: (usize, KernelResult<()>))
        ensures
            r.0 == data@.len(),
            spec_trim(data@) == seq![49u8] ==> *final(self) == true && r.1 is Ok,
            spec_trim(data@) == seq![48u8] ==> *final(self) == false && r.1 is Ok,
            spec_trim(data@) != seq![49u8] && spec_trim(data@) != seq![48u8] ==> *final(self)
                == *old(self) && (r.1 matches Err(e) && e@ == EINVAL as int),
    {
        let t = trim_whitespace(data);
        proof {
            assert(seq![48u8].len() == 1 && seq![48u8][0] == 48u8);
            assert(seq![49u8].len() == 1 && seq![49u8][0] == 49u8);
        }
        let result = if t.len() == 1 && t[0] == 48 {
            proof {
                assert(t@ =~= seq![48u8]);
            }
            *self = false;
            Ok(())
        } else if t.len() == 1 && t[0] == 49 {
            proof {
                assert(t@ =~= seq![49u8]);
            }
            *self = true;
            Ok(())
        } else {
            Err(Error::from_kernel_errno(EINVAL))
        };
        (data.len(), result)
    }

    /// Renders the value as `0` or `1` followed by a newline, reporting two
    /// bytes; fails only when two bytes do not fit the buffer.
    fn read_value(&self, data: &mut UserSlicePtrWriter, mem: &mut UserMemory) -> (r: (
        usize,
        KernelResult<()>,
    ))
        ensures
            r.0 == 2,
            r.1 is Ok <==> 2 <= old(data).remaining() && old(data).addr() + 2 <= old(mem)@.len(),
            r.1 is Ok ==> final(mem)@ == store_bytes(
                old(mem)@,
                old(data).addr(),
                (if *self {
                    seq![49u8, 10u8]
                } else {
                    seq![48u8, 10u8]
                }),
            ) && final(data).remaining() == old(data).remaining() - 2 && final(data).addr() == old(data).addr() + 2,
            r.1 is Err ==> final(mem)@ == old(mem)@ && final(data).remaining() == old(data).remaining(),
            r.1 matches Err(e) ==> e@ == EFAULT as int,
    {
        let text: Vec<u8> = if *self {
            vec![49u8, 10u8]
        } else {
            vec![48u8, 10u8]
        };
        proof {
            if *self {
                assert(text@ =~= seq![49u8, 10u8]);
            } else {
                assert(text@ =~= seq![48u8, 10u8]);
            }
        }
        let ghost pre_mem = mem@;
        let ghost pre_data = *data;
        let res = data.write(mem, text.as_slice());
        proof {
            if res is Ok {
                lemma_store_bytes_frame(pre_mem, pre_data.addr(), text@);
                assert forall|j: int|
                    0 <= j < pre_mem.len() && !(pre_data.addr() <= j < data.addr()) implies mem@[j]
                    == pre_mem[j] by {
                    assert(store_bytes(pre_mem, pre_data.addr(), text@)[j] == pre_mem[j]);
                }
            }
        }
        (2, res)
    }
}

/// One call into the configuration-entry points, as the subsystem model
/// records it, with the arguments that crossed the boundary.
#[derive(Clone, Debug, PartialEq, Eq)]
pub enum SysctlCall {
    RegisterTable { path: CStr, name: CStr, mode: u16 },
    UnregisterTable,
}

/// The dynamic-configuration subsystem across the boundary, modelled by
/// what this layer can observe of it: the entry-point calls made so far and
/// the status it will answer to each further registration. A non-zero
/// status stands for the subsystem handing back no table header.
pub struct SysctlSubsystem {
    calls: Vec<SysctlCall>,
    statuses: Vec<i32>,
    cursor: usize,
}

impl SysctlSubsystem {
    pub closed spec fn log(self) -> Seq<SysctlCall> {
        self.calls@
    }

    pub closed spec fn statuses_seq(self) -> Seq<i32> {
        self.statuses@
    }

    pub closed spec fn cursor(self) -> int {
        self.cursor as int
    }

    pub open spec fn wf(self) -> bool {
        self.cursor() <= self.statuses_seq().len()
    }

    /// The status the subsystem will answer to the `k`-th registration from
    /// now on.
    pub open spec fn reply(self, k: int) -> int {
        if self.cursor() + k < self.statuses_seq().len() {
            self.statuses_seq()[self.cursor() + k] as int
        } else {
            0
        }
    }

    pub fn new(statuses: Vec<i32>) -> (h: SysctlSubsystem)
        ensures
            h.wf(),
            h.log() == Seq::<SysctlCall>::empty(),
            h.statuses_seq() == statuses@,
            h.cursor() == 0,
    {
        SysctlSubsystem { calls: Vec::new(), statuses, cursor: 0 }
    }

    /// The recorded calls, for inspection.
    pub fn calls(&self) -> (c: &Vec<SysctlCall>)
        ensures
            c@ == self.log(),
    {
        &self.calls
    }

    fn register_sysctl(&mut self, path: CStr, name: CStr, mode: u16) -> (r: i32)
        requires
            old(self).wf(),
        ensures
            final(self).wf(),
            r as int == old(self).reply(0),
            final(self).log() == old(self).log().push(
                (SysctlCall::RegisterTable { path, name, mode }),
            ),
            final(self).statuses_seq() == old(self).statuses_seq(),
    {
        self.calls.push(SysctlCall::RegisterTable { path, name, mode });
        if self.cursor < self.statuses.len() {
            let s = self.statuses[self.cursor];
            self.cursor = self.cursor + 1;
            s
        } else {
            0
        }
    }

    fn unregister_sysctl_table(&mut self)
        requires
            old(self).wf(),
        ensures
            final(self).wf(),
            final(self).log() == old(self).log().push(SysctlCall::UnregisterTable),
            final(self).statuses_seq() == old(self).statuses_seq(),
            final(self).cursor() == old(self).cursor(),
    {
        self.calls.push(SysctlCall::UnregisterTable);
    }
}

/// An owned, active configuration entry backed by a `SysctlStorage` value.
/// The table header the subsystem granted cannot be copied out; tearing the
/// entry down consumes the value, so the unregister call happens exactly
/// once.
pub struct Sysctl<T: SysctlStorage> {
    inner: T,
}

impl<T: SysctlStorage> Sysctl<T> {
    /// The storage value the entry serves.
    pub closed spec fn value(self) -> T {
        self.inner
    }

    /// Validates the entry's name and registers it with the subsystem,
    /// handing over the directory path, the entry name and the permission
    /// mode. A name holding a path separator is rejected before any call is
    /// made.
    pub fn register(
        path: CStr,
        name: CStr,
        storage: T,
        mode: Mode,
        host: &mut SysctlSubsystem,
    ) -> (r: KernelResult<Sysctl<T>>)
        requires
            old(host).wf(),
        ensures
            final(host).wf(),
            name@.contains(47u8) ==> (r matches Err(e) && e@ == EINVAL as int && final(host).log()
                == old(host).log()),
            !name@.contains(47u8) && old(host).reply(0) != 0 ==> (r matches Err(e) && e@
                == ENOMEM as int && final(host).log() == old(host).log().push(
                (SysctlCall::RegisterTable { path, name, mode: mode@ }),
            )),
            !name@.contains(47u8) && old(host).reply(0) == 0 ==> (r matches Ok(s) && s.value()
                == storage && final(host).log() == old(host).log().push(
                (SysctlCall::RegisterTable { path, name, mode: mode@ }),
            )),
    {
        if name.contains(47) {
            return Err(Error::from_kernel_errno(EINVAL));
        }
        let m = mode.as_int();
        let result = host.register_sysctl(path, name, m);
        if result != 0 {
            return Err(Error::from_kernel_errno(ENOMEM));
        }
        Ok(Sysctl { inner: storage })
    }

    /// Read access to the storage value.
    pub fn get(&self) -> (t: &T)
        ensures
            *t == self.value(),
    {
        &self.inner
    }

    /// Unregisters the entry, exactly once, and hands the storage value
    /// back. Consuming `self` is what makes a second unregister impossible.
    pub fn unregister(self, host: &mut SysctlSubsystem) -> (t: T)
        requires
            old(host).wf(),
        ensures
            final(host).wf(),
            t == self.value(),
            final(host).log() == old(host).log().push(SysctlCall::UnregisterTable),
    {
        host.unregister_sysctl_table();
        self.inner
    }
}

/// The trampoline behind every configuration entry. A read from a non-zero
/// position reports end-of-file. Otherwise it validates the caller's buffer
/// range, rejects an overflowing position as an invalid argument, and runs
/// the storage callback: a write stores the bytes fetched from the caller,
/// a read renders the value through a forward-only writer. The handled byte
/// count lands in `len` and the position advances by exactly that count.
pub fn proc_handler<T: SysctlStorage>(
    storage: &mut T,
    write: i32,
    buffer: usize,
    mem: &mut UserMemory,
    len: &mut usize,
    ppos: &mut i64,
) -> (r: i32)
    ensures
        final(mem)@.len() == old(mem)@.len(),
        *old(ppos) != 0 && write == 0 ==> r == 0 && *final(len) == 0 && *final(ppos) == *old(ppos)
            && *final(storage) == *old(storage) && final(mem)@ == old(mem)@,
        !(*old(ppos) != 0 && write == 0) && !access_ok(buffer as int, *old(len) as int) ==> r
            == EFAULT && *final(len) == *old(len) && *final(ppos) == *old(ppos) && *final(storage)
            == *old(storage) && final(mem)@ == old(mem)@,
        !(*old(ppos) != 0 && write == 0) && access_ok(buffer as int, *old(len) as int) && (*old(ppos) < 0 || *old(len) as int > LOFF_MAX - *old(ppos)) ==> r == EINVAL && *final(len) == *old(len) && *final(ppos) == *old(ppos) && *final(storage) == *old(storage) && final(mem)@ == old(mem)@,
        !(*old(ppos) != 0 && write == 0) && access_ok(buffer as int, *old(len) as int) && 0 <= *old(ppos) && *old(len) as int <= LOFF_MAX - *old(ppos) && write != 0 && buffer + *old(len) > old(mem)@.len() ==> r == EFAULT && *final(len) == *old(len) && *final(ppos) == *old(ppos)
            && *final(storage) == *old(storage) && final(mem)@ == old(mem)@,
        !(*old(ppos) != 0 && write == 0) && r == 0 ==> *final(ppos) == *old(ppos) + *final(len),
        write != 0 ==> final(mem)@ == old(mem)@,
        *old(ppos) == 0 && write == 0 && access_ok(buffer as int, *old(len) as int) && *old(len) as int <= LOFF_MAX ==> writes_confined(
            old(mem)@,
            final(mem)@,
            buffer as int,
            buffer + *old(len),
        ),
{
    if *ppos != 0 && write == 0 {
        *len = 0;
        return 0;
    }
    let data = match UserSlicePtr::new(buffer, *len) {
        Ok(p) => p,
        Err(e) => {
            return e.to_kernel_errno();
        },
    };
    if *ppos < 0 {
        return EINVAL;
    }
    if *len as u64 > (LOFF_MAX - *ppos) as u64 {
        return EINVAL;
    }
    let ghost pre_len = *len;
    let (bytes, result) = if write != 0 {
        let fetched = match data.read_all(mem) {
            Ok(v) => v,
            Err(e) => {
                return e.to_kernel_errno();
            },
        };
        storage.store_value(fetched.as_slice())
    } else {
        let mut writer = data.writer();
        let ghost pre_mem = mem@;
        let rr = storage.read_value(&mut writer, mem);
        proof {
            assert forall|j: int|
                0 <= j < pre_mem.len() && !(buffer <= j < buffer + pre_len) implies mem@[j]
                == pre_mem[j] by {}
        }
        rr
    };
    finish_proc_op(bytes, result, len, ppos)
}

/// The bookkeeping every entry shares once its storage callback has
/// answered with a handled byte count and an outcome: the count lands in
/// `len` and the position advances by exactly that count — also when the
/// outcome is an error — unless the advance would overflow the position
/// domain, which is rejected as an invalid argument with nothing updated.
/// Zero is handed back for success, else the outcome's own status.
pub fn finish_proc_op(
    bytes: usize,
    result: KernelResult<()>,
    len: &mut usize,
    ppos: &mut i64,
) -> (r: i32)
    requires
        0 <= *old(ppos),
    ensures
        bytes as int > LOFF_MAX - *old(ppos) ==> r == EINVAL && *final(len) == *old(len) && *final(ppos) == *old(ppos),
        bytes as int <= LOFF_MAX - *old(ppos) ==> *final(len) == bytes && *final(ppos) == *old(ppos) + bytes && (result is Ok ==> r == 0) && (result matches Err(e) ==> r as int == e@),
{
    if bytes as u64 > (LOFF_MAX - *ppos) as u64 {
        return EINVAL;
    }
    *len = bytes;
    *ppos = *ppos + bytes as i64;
    match result {
        Ok(()) => 0,
        Err(e) => e.to_kernel_errno(),
    }
}

} // verus!
