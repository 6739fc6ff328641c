use vstd::prelude::*;

use crate::error::{Error, KernelResult};
use crate::file_operations::{FileOperations, FileOperationsVtable};
use crate::types::CStr;

verus! {

/// One call into the character-device entry points, as the subsystem model
/// records it, with the arguments that crossed the boundary. Allocating the
/// region and adding a device are fallible; deleting a device and releasing
/// the region are not.
#[derive(Clone, Debug, PartialEq, Eq)]
pub enum ChrdevCall {
    AllocRegion { name: CStr, first_minor: u16, count: usize },
    CdevAdd { index: usize, vtable: FileOperationsVtable },
    CdevDel { index: usize },
    UnregisterRegion,
}

/// The character-device subsystem across the boundary, modelled by what
/// this layer can observe of it: the entry-point calls made so far, in
/// order, and the status the subsystem will answer to each further fallible
/// call. Statuses beyond the programmed ones are success.
pub struct ChrdevSubsystem {
    calls: Vec<ChrdevCall>,
    statuses: Vec<i32>,
    cursor: usize,
}

impl ChrdevSubsystem {
    /// Every entry-point call made so far, oldest first.
    pub closed spec fn log(self) -> Seq<ChrdevCall> {
        self.calls@
    }

    pub closed spec fn statuses_seq(self) -> Seq<i32> {
        self.statuses@
    }

    pub closed spec fn cursor(self) -> int {
        self.cursor as int
    }

    pub open spec fn wf(self) -> bool {
        self.cursor() <= self.statuses_seq().len()
    }

    /// The status the subsystem will answer to the `k`-th fallible call
    /// from now on.
    pub open spec fn reply(self, k: int) -> int {
        if self.cursor() + k < self.statuses_seq().len() {
            self.statuses_seq()[self.cursor() + k] as int
        } else {
            0
        }
    }

    /// A fresh subsystem that will answer the given statuses, in order,
    /// to its fallible entry points, and success from then on.
    pub fn new(statuses: Vec<i32>) -> (h: ChrdevSubsystem)
        ensures
            h.wf(),
            h.log() == Seq::<ChrdevCall>::empty(),
            h.statuses_seq() == statuses@,
            h.cursor() == 0,
    {
        ChrdevSubsystem { calls: Vec::new(), statuses, cursor: 0 }
    }

    /// The recorded calls, for inspection.
    pub fn calls(&self) -> (c: &Vec<ChrdevCall>)
        ensures
            c@ == self.log(),
    {
        &self.calls
    }

    fn take_status(&mut self) -> (r: i32)
        requires
            old(self).wf(),
        ensures
            final(self).wf(),
            r as int == old(self).reply(0),
            final(self).log() == old(self).log(),
            final(self).statuses_seq() == old(self).statuses_seq(),
            final(self).cursor() == if old(self).cursor() < old(self).statuses_seq().len() {
                old(self).cursor() + 1
            } else {
                old(self).cursor()
            },
    {
        if self.cursor < self.statuses.len() {
            let s = self.statuses[self.cursor];
            self.cursor = self.cursor + 1;
            s
        } else {
            0
        }
    }

    /// Asks the subsystem for a device-number region under the given name.
    fn alloc_chrdev_region(&mut self, name: CStr, first_minor: u16, count: usize) -> (r: i32)
        requires
            old(self).wf(),
        ensures
            final(self).wf(),
            r as int == old(self).reply(0),
            final(self).log() == old(self).log().push(
                (ChrdevCall::AllocRegion { name, first_minor, count }),
            ),
            final(self).statuses_seq() == old(self).statuses_seq(),
            final(self).cursor() == if old(self).cursor() < old(self).statuses_seq().len() {
                old(self).cursor() + 1
            } else {
                old(self).cursor()
            },
    {
        self.calls.push(ChrdevCall::AllocRegion { name, first_minor, count });
        self.take_status()
    }

    /// Adds the sub-device at `index` to the region, handing over its
    /// callback table.
    fn cdev_add(&mut self, index: usize, vtable: FileOperationsVtable) -> (r: i32)
        requires
            old(self).wf(),
        ensures
            final(self).wf(),
            r as int == old(self).reply(0),
            final(self).log() == old(self).log().push((ChrdevCall::CdevAdd { index, vtable })),
            final(self).statuses_seq() == old(self).statuses_seq(),
            final(self).cursor() == if old(self).cursor() < old(self).statuses_seq().len() {
                old(self).cursor() + 1
            } else {
                old(self).cursor()
            },
    {
        self.calls.push(ChrdevCall::CdevAdd { index, vtable });
        self.take_status()
    }

    /// Deletes the sub-device at `index`. The subsystem cannot refuse this.
    fn cdev_del(&mut self, index: usize)
        requires
            old(self).wf(),
        ensures
            final(self).wf(),
            final(self).log() == old(self).log().push((ChrdevCall::CdevDel { index })),
            final(self).statuses_seq() == old(self).statuses_seq(),
            final(self).cursor() == old(self).cursor(),
    {
        self.calls.push(ChrdevCall::CdevDel { index });
    }

    /// Releases the device-number region. The subsystem cannot refuse this.
    fn unregister_chrdev_region(&mut self)
        requires
            old(self).wf(),
        ensures
            final(self).wf(),
            final(self).log() == old(self).log().push(ChrdevCall::UnregisterRegion),
            final(self).statuses_seq() == old(self).statuses_seq(),
            final(self).cursor() == old(self).cursor(),
    {
        self.calls.push(ChrdevCall::UnregisterRegion);
    }
}

/// The calls that add sub-devices `0 .. k`, in ascending order, each
/// handing over its table from `devs`.
pub open spec fn adds(devs: Seq<FileOperationsVtable>, k: int) -> Seq<ChrdevCall>
    decreases k,
{
    if k <= 0 {
        Seq::empty()
    } else {
        adds(devs, k - 1).push(
            (ChrdevCall::CdevAdd { index: (k - 1) as usize, vtable: devs[k - 1] }),
        )
    }
}

/// The calls that delete sub-devices `hi - 1` down to `lo`, in strictly
/// descending order.
pub open spec fn dels_down(hi: int, lo: int) -> Seq<ChrdevCall>
    decreases hi - lo,
{
    if hi <= lo {
        Seq::empty()
    } else {
        dels_down(hi, lo + 1).push((ChrdevCall::CdevDel { index: lo as usize }))
    }
}

proof fn lemma_push_concat<A>(a: Seq<A>, b: Seq<A>, x: A)
    ensures
        (a + b).push(x) == a + b.push(x),
{
    assert((a + b).push(x) =~= a + b.push(x));
}

proof fn lemma_push_single<A>(s: Seq<A>, x: A)
    ensures
        s.push(x) == s + seq![x],
{
    assert(s.push(x) =~= s + seq![x]);
}

/// The calls that delete sub-devices `0 .. k`, in ascending order.
pub open spec fn dels_up(k: int) -> Seq<ChrdevCall>
    decreases k,
{
    if k <= 0 {
        Seq::empty()
    } else {
        dels_up(k - 1).push((ChrdevCall::CdevDel { index: (k - 1) as usize }))
    }
}

/// How many region releases a call sequence holds.
pub open spec fn release_count(s: Seq<ChrdevCall>) -> int
    decreases s.len(),
{
    if s.len() == 0 {
        0
    } else {
        release_count(s.drop_last()) + if s.last() is UnregisterRegion {
            1int
        } else {
            0int
        }
    }
}

proof fn lemma_release_count_concat(a: Seq<ChrdevCall>, b: Seq<ChrdevCall>)
    ensures
        release_count(a + b) == release_count(a) + release_count(b),
    decreases b.len(),
{
    if b.len() == 0 {
        assert(a + b =~= a);
    } else {
        lemma_release_count_concat(a, b.drop_last());
        assert((a + b).drop_last() =~= a + b.drop_last());
        assert((a + b).last() == b.last());
    }
}

proof fn lemma_adds_no_release(devs: Seq<FileOperationsVtable>, k: int)
    ensures
        release_count(adds(devs, k)) == 0,
    decreases k,
{
    if k > 0 {
        lemma_adds_no_release(devs, k - 1);
        assert(adds(devs, k).drop_last() =~= adds(devs, k - 1));
    }
}

proof fn lemma_dels_down_no_release(hi: int, lo: int)
    ensures
        release_count(dels_down(hi, lo)) == 0,
    decreases hi - lo,
{
    if hi > lo {
        lemma_dels_down_no_release(hi, lo + 1);
        assert(dels_down(hi, lo).drop_last() =~= dels_down(hi, lo + 1));
    }
}

proof fn lemma_dels_up_no_release(k: int)
    ensures
        release_count(dels_up(k)) == 0,
    decreases k,
{
    if k > 0 {
        lemma_dels_up_no_release(k - 1);
        assert(dels_up(k).drop_last() =~= dels_up(k - 1));
    }
}

proof fn lemma_single_release()
    ensures
        release_count(seq![ChrdevCall::UnregisterRegion]) == 1,
{
    let s = seq![ChrdevCall::UnregisterRegion];
    assert(s.len() == 1);
    assert(s.last() == ChrdevCall::UnregisterRegion);
    assert(s.drop_last().len() == 0);
    assert(release_count(s.drop_last()) == 0);
}

/// Exactly-once release, failure path: the calls a refused sub-device
/// addition appends after the region grant release the region exactly once,
/// however many sub-devices had to be rolled back.
pub proof fn lemma_rollback_releases_once(devs: Seq<FileOperationsVtable>, k: int)
    requires
        0 <= k,
    ensures
        release_count(adds(devs, k + 1) + dels_down(k, 0) + seq![ChrdevCall::UnregisterRegion])
            == 1,
{
    lemma_adds_no_release(devs, k + 1);
    lemma_dels_down_no_release(k, 0);
    lemma_release_count_concat(adds(devs, k + 1), dels_down(k, 0));
    lemma_release_count_concat(
        adds(devs, k + 1) + dels_down(k, 0),
        seq![ChrdevCall::UnregisterRegion],
    );
    lemma_single_release();
}

/// Exactly-once release, teardown path: tearing a registration of `c`
/// sub-devices down releases the region exactly once.
pub proof fn lemma_teardown_releases_once(c: int)
    requires
        0 <= c,
    ensures
        release_count(dels_up(c) + seq![ChrdevCall::UnregisterRegion]) == 1,
{
    lemma_dels_up_no_release(c);
    lemma_release_count_concat(dels_up(c), seq![ChrdevCall::UnregisterRegion]);
    lemma_single_release();
}

/// Ordered rollback, spelt out: the additions attempted before a refusal
/// carry ascending indices `0, 1, ...`, each handing over its own table,
/// and the deletions rolled back after it carry strictly descending
/// indices `hi - 1` down to `lo`.
pub proof fn lemma_rollback_order(devs: Seq<FileOperationsVtable>, k: int, hi: int, lo: int)
    requires
        0 <= k <= usize::MAX,
        0 <= lo <= hi <= usize::MAX,
    ensures
        adds(devs, k).len() == k,
        forall|j: int|
            0 <= j < k ==> adds(devs, k)[j] == (ChrdevCall::CdevAdd {
                index: j as usize,
                vtable: devs[j],
            }),
        dels_down(hi, lo).len() == hi - lo,
        forall|j: int|
            0 <= j < hi - lo ==> dels_down(hi, lo)[j] == (ChrdevCall::CdevDel {
                index: (hi - 1 - j) as usize,
            }),
    decreases k + hi - lo,
{
    if k > 0 {
        lemma_rollback_order(devs, k - 1, hi, lo);
        assert forall|j: int| 0 <= j < k implies adds(devs, k)[j] == (ChrdevCall::CdevAdd {
            index: j as usize,
            vtable: devs[j],
        }) by {
            if j < k - 1 {
                assert(adds(devs, k)[j] == adds(devs, k - 1)[j]);
            }
        }
    }
    if hi > lo && k == 0 {
        lemma_rollback_order(devs, k, hi, lo + 1);
        assert forall|j: int| 0 <= j < hi - lo implies dels_down(hi, lo)[j] == (ChrdevCall::CdevDel {
            index: (hi - 1 - j) as usize,
        }) by {
            if j < hi - lo - 1 {
                assert(dels_down(hi, lo)[j] == dels_down(hi, lo + 1)[j]);
            }
        }
    }
}

/// The first of the `n` sub-device additions that the subsystem `h` would
/// refuse, counting its replies after the region grant; `n` if it would
/// refuse none.
pub open spec fn first_refused(h: ChrdevSubsystem, n: int) -> int {
    first_refused_from(h, 0, n)
}

pub open spec fn first_refused_from(h: ChrdevSubsystem, j: int, n: int) -> int
    decreases n - j,
{
    if j >= n {
        n
    } else if h.reply(1 + j) != 0 {
        j
    } else {
        first_refused_from(h, j + 1, n)
    }
}

proof fn lemma_first_refused_at(h: ChrdevSubsystem, i: int, n: int)
    requires
        0 <= i < n,
        forall|j: int| 0 <= j < i ==> #[trigger] h.reply(1 + j) == 0,
        h.reply(1 + i) != 0,
    ensures
        first_refused(h, n) == i,
{
    lemma_first_refused_from(h, 0, i, n);
}

proof fn lemma_first_refused_from(h: ChrdevSubsystem, j: int, i: int, n: int)
    requires
        0 <= j <= i < n,
        forall|k: int| 0 <= k < i ==> #[trigger] h.reply(1 + k) == 0,
        h.reply(1 + i) != 0,
    ensures
        first_refused_from(h, j, n) == i,
    decreases i - j,
{
    if j < i {
        lemma_first_refused_from(h, j + 1, i, n);
    }
}

proof fn lemma_first_refused_none(h: ChrdevSubsystem, j: int, n: int)
    requires
        0 <= j <= n,
        forall|k: int| 0 <= k < n ==> #[trigger] h.reply(1 + k) == 0,
    ensures
        first_refused_from(h, j, n) == n,
    decreases n - j,
{
    if j < n {
        lemma_first_refused_none(h, j + 1, n);
    }
}

/// Starts a character-device registration over the given minor numbers.
pub fn builder(name: CStr, minors_start: u16, minors_end: u16) -> (r: KernelResult<Builder>)
    ensures
        r matches Ok(b) ==> b.spec_name() == name@ && b.minors_start() == minors_start
            && b.minors_end() == minors_end && b.devices() == Seq::<FileOperationsVtable>::empty(),
        r is Ok,
{
    Ok(Builder { name, minors_start, minors_end, file_ops: Vec::new() })
}

/// Collects the callback tables of the sub-devices to front a single
/// device-number region, then registers the whole lot at once.
pub struct Builder {
    name: CStr,
    minors_start: u16,
    minors_end: u16,
    file_ops: Vec<FileOperationsVtable>,
}

impl Builder {
    /// The region name as handed to the subsystem.
    pub closed spec fn name_value(self) -> CStr {
        self.name
    }

    pub open spec fn spec_name(self) -> Seq<u8> {
        self.name_value()@
    }

    pub closed spec fn minors_start(self) -> u16 {
        self.minors_start
    }

    pub closed spec fn minors_end(self) -> u16 {
        self.minors_end
    }

    /// How many minor numbers the region spans.
    pub open spec fn minors_len(self) -> int {
        if self.minors_start() <= self.minors_end() {
            self.minors_end() - self.minors_start()
        } else {
            0
        }
    }

    /// The callback tables collected so far, in registration order.
    pub closed spec fn devices(self) -> Seq<FileOperationsVtable> {
        self.file_ops@
    }

    /// Adds the next sub-device, with the callback table built for `T`.
    /// There must still be a minor number left for it.
    pub fn register_device<T: FileOperations>(self) -> (b: Builder)
        requires
            self.devices().len() < self.minors_len(),
        ensures
            b.spec_name() == self.spec_name(),
            b.minors_start() == self.minors_start(),
            b.minors_end() == self.minors_end(),
            b.devices() == self.devices().push(
                (FileOperationsVtable {
                    has_open: true,
                    has_release: true,
                    has_read: T::has_read(),
                    has_write: T::has_write(),
                    has_seek: T::has_seek(),
                }),
            ),
    {
        let mut b = self;
        let v = crate::file_operations::vtable_for::<T>();
        b.file_ops.push(v);
        b
    }

    /// Registers the region and every collected sub-device, in order. If the
    /// subsystem refuses sub-device `k`, the sub-devices already added are
    /// deleted again in strictly descending order, the region is released,
    /// and the refusing status is returned; no sub-device past `k` is ever
    /// added. If the subsystem refuses the region itself nothing else is
    /// attempted.
    pub fn build(self, host: &mut ChrdevSubsystem) -> (r: KernelResult<Registration>)
        requires
            old(host).wf(),
        ensures
            final(host).wf(),
            old(host).reply(0) != 0 ==> (r matches Err(e) && e@ == old(host).reply(0)
                && final(host).log() == old(host).log().push(
                (ChrdevCall::AllocRegion {
                    name: self.name_value(),
                    first_minor: self.minors_start(),
                    count: self.minors_len() as usize,
                }))),
            (old(host).reply(0) == 0 && first_refused(*old(host), self.devices().len() as int)
                == self.devices().len()) ==> (r matches Ok(reg)
                && reg.count() == self.minors_len() && reg.cdev_count() == self.devices().len()
                && final(host).log() == old(host).log().push(
                (ChrdevCall::AllocRegion {
                    name: self.name_value(),
                    first_minor: self.minors_start(),
                    count: self.minors_len() as usize,
                })) + adds(self.devices(), self.devices().len() as int)),
            (old(host).reply(0) == 0 && first_refused(*old(host), self.devices().len() as int)
                < self.devices().len()) ==> (r matches Err(e)
                && e@ == old(host).reply(1 + first_refused(*old(host), self.devices().len() as int))
                && final(host).log() == old(host).log().push(
                (ChrdevCall::AllocRegion {
                    name: self.name_value(),
                    first_minor: self.minors_start(),
                    count: self.minors_len() as usize,
                })) + adds(self.devices(), first_refused(*old(host), self.devices().len() as int) + 1)
                + dels_down(first_refused(*old(host), self.devices().len() as int), 0)
                + seq![ChrdevCall::UnregisterRegion]),
    {
        let ghost h0 = *host;
        let ghost b0 = self;
        let n = self.file_ops.len();
        let first_minor = self.minors_start;
        let minor_count: usize = if self.minors_end >= self.minors_start {
            (self.minors_end - self.minors_start) as usize
        } else {
            0
        };
        let res = host.alloc_chrdev_region(self.name, first_minor, minor_count);
        if res != 0 {
            return Err(Error::from_kernel_errno(res));
        }
        let ghost base = host.log();
        let mut i: usize = 0;
        while i < n
            invariant
                host.wf(),
                h0 == *old(host),
                h0.reply(0) == 0,
                i <= n,
                n == b0.devices().len(),
                host.log() == base + adds(b0.devices(), i as int),
                base == h0.log().push(
                    (ChrdevCall::AllocRegion {
                        name: b0.name_value(),
                        first_minor: b0.minors_start(),
                        count: b0.minors_len() as usize,
                    }),
                ),
                b0 == self,
                host.statuses_seq() == h0.statuses_seq(),
                host.cursor() == if h0.cursor() + 1 + i <= h0.statuses_seq().len() {
                    h0.cursor() + 1 + i
                } else {
                    h0.statuses_seq().len() as int
                },
                h0.wf(),
                forall|j: int| 0 <= j < i ==> #[trigger] h0.reply(1 + j) == 0,
            decreases n - i,
        {
            let vt = self.file_ops[i];
            let rc = host.cdev_add(i, vt);
            if rc != 0 {
                proof {
                    lemma_first_refused_at(h0, i as int, n as int);
                    lemma_push_concat(
                        base,
                        adds(b0.devices(), i as int),
                        (ChrdevCall::CdevAdd { index: i, vtable: vt }),
                    );
                }
                let mut j: usize = i;
                while j > 0
                    invariant
                        host.wf(),
                        j <= i,
                        i < n,
                        host.log() == base + adds(b0.devices(), i as int + 1) + dels_down(i as int, j as int),
                        host.statuses_seq() == h0.statuses_seq(),
                        host.cursor() == if h0.cursor() + 2 + i <= h0.statuses_seq().len() {
                            h0.cursor() + 2 + i
                        } else {
                            h0.statuses_seq().len() as int
                        },
                    decreases j,
                {
                    j = j - 1;
                    let ghost pre_dels = dels_down(i as int, j as int + 1);
                    host.cdev_del(j);
                    proof {
                        lemma_push_concat(
                            base + adds(b0.devices(), i as int + 1),
                            pre_dels,
                            (ChrdevCall::CdevDel { index: j }),
                        );
                    }
                }
                host.unregister_chrdev_region();
                proof {
                    lemma_push_single(
                        base + adds(b0.devices(), i as int + 1) + dels_down(i as int, 0),
                        ChrdevCall::UnregisterRegion,
                    );
                }
                return Err(Error::from_kernel_errno(rc));
            }
            i = i + 1;
        }
        proof {
            lemma_first_refused_none(h0, 0, n as int);
        }
        Ok(Registration { dev: first_minor as u64, count: minor_count, cdevs: n })
    }
}

/// An owned, active character-device registration: one region spanning
/// `count` device numbers, fronted by the registered sub-devices. The
/// handle cannot be copied out; tearing the registration down consumes the
/// value, so the release happens exactly once.
pub struct Registration {
    dev: u64,
    count: usize,
    cdevs: usize,
}

impl Registration {
    /// The opaque region identity the subsystem granted.
    pub closed spec fn spec_dev(self) -> u64 {
        self.dev
    }

    /// How many device numbers the region spans.
    pub closed spec fn count(self) -> int {
        self.count as int
    }

    /// How many sub-devices are live in the region.
    pub closed spec fn cdev_count(self) -> int {
        self.cdevs as int
    }

    pub fn device_count(&self) -> (c: usize)
        ensures
            c as int == self.count(),
    {
        self.count
    }

    /// Tears the registration down: deletes every sub-device, then releases
    /// the region, with one release call exactly. Consuming `self` is what
    /// makes a second release impossible.
    pub fn unregister(self, host: &mut ChrdevSubsystem)
        requires
            old(host).wf(),
        ensures
            final(host).wf(),
            final(host).log() == old(host).log() + dels_up(self.cdev_count()) + seq![
                ChrdevCall::UnregisterRegion,
            ],
            final(host).statuses_seq() == old(host).statuses_seq(),
            final(host).cursor() == old(host).cursor(),
    {
        let ghost base = host.log();
        let n = self.cdevs;
        let mut i: usize = 0;
        while i < n
            invariant
                host.wf(),
                i <= n,
                host.log() == base + dels_up(i as int),
                host.statuses_seq() == old(host).statuses_seq(),
                host.cursor() == old(host).cursor(),
            decreases n - i,
        {
            host.cdev_del(i);
            i = i + 1;
        }
        host.unregister_chrdev_region();
        proof {
            assert(host.log() =~= base + dels_up(self.cdev_count()) + seq![
                ChrdevCall::UnregisterRegion,
            ]);
        }
    }
}

} // verus!
