use vstd::prelude::*;

use crate::rcu::RcuReadGuard;

verus! {

/// Length of the fixed command-name buffer every process record carries.
pub const TASK_COMM_LEN: usize = 16;

/// Index of the first NUL in `src`, or its length if none.
pub open spec fn first_nul(src: Seq<i8>) -> int {
    first_nul_from(src, 0)
}

pub open spec fn first_nul_from(src: Seq<i8>, j: int) -> int
    recommends
        0 <= j <= src.len(),
    decreases src.len() - j,
{
    if j < 0 || j >= src.len() {
        src.len() as int
    } else if src[j] == 0 {
        j
    } else {
        first_nul_from(src, j + 1)
    }
}

proof fn lemma_first_nul_step(src: Seq<i8>, j: int)
    requires
        0 <= j < src.len(),
        src[j] != 0,
    ensures
        first_nul_from(src, j) == first_nul_from(src, j + 1),
{
}

proof fn lemma_first_nul_from_ge(src: Seq<i8>, j: int)
    requires
        0 <= j <= src.len(),
    ensures
        j <= first_nul_from(src, j) <= src.len(),
    decreases src.len() - j,
{
    if j < src.len() && src[j] != 0 {
        lemma_first_nul_from_ge(src, j + 1);
    }
}

/// One process as the table shows it: its thread-group identifier and its
/// raw command-name buffer.
pub struct TaskStruct {
    tgid: i32,
    comm: Vec<i8>,
}

impl TaskStruct {
    pub closed spec fn spec_tgid(self) -> i32 {
        self.tgid
    }

    pub closed spec fn spec_comm(self) -> Seq<i8> {
        self.comm@
    }

    pub open spec fn wf(self) -> bool {
        self.spec_comm().len() == TASK_COMM_LEN
    }

    pub fn new(tgid: i32, comm: Vec<i8>) -> (t: TaskStruct)
        requires
            comm@.len() == TASK_COMM_LEN,
        ensures
            t.wf(),
            t.spec_tgid() == tgid,
            t.spec_comm() == comm@,
    {
        TaskStruct { tgid, comm }
    }

    /// The thread-group identifier (what the caller side calls the process
    /// identifier).
    pub fn tgid(&self) -> (t: i32)
        ensures
            t == self.spec_tgid(),
    {
        self.tgid
    }

    /// The command name: the raw buffer reinterpreted as unsigned bytes up
    /// to its first NUL, zero-filled past it, always the full fixed length.
    pub fn comm(&mut self) -> (r: Vec<u8>)
        requires
            old(self).wf(),
        ensures
            *final(self) == *old(self),
            r@.len() == TASK_COMM_LEN,
            forall|k: int|
                0 <= k < TASK_COMM_LEN ==> #[trigger] r@[k] == if k < first_nul(old(self).spec_comm(
                )) {
                    old(self).spec_comm()[k] as u8
                } else {
                    0u8
                },
    {
        let mut result: Vec<u8> = Vec::new();
        let mut stopped = false;
        let mut i: usize = 0;
        proof {
            lemma_first_nul_from_ge(self.comm@, 0);
        }
        while i < TASK_COMM_LEN
            invariant
                self.wf(),
                *self == *old(self),
                i <= TASK_COMM_LEN,
                result@.len() == i,
                stopped <==> first_nul(self.spec_comm()) < i,
                first_nul(self.spec_comm()) == first_nul_from(self.spec_comm(), 0),
                !stopped ==> first_nul_from(self.spec_comm(), 0) == first_nul_from(
                    self.spec_comm(),
                    i as int,
                ),
                forall|k: int|
                    0 <= k < i ==> #[trigger] result@[k] == if k < first_nul(self.spec_comm()) {
                        self.spec_comm()[k] as u8
                    } else {
                        0u8
                    },
            decreases TASK_COMM_LEN - i,
        {
            if !stopped && self.comm[i] == 0 {
                stopped = true;
            }
            if stopped {
                result.push(0);
            } else {
                proof {
                    lemma_first_nul_step(self.spec_comm(), i as int);
                    lemma_first_nul_from_ge(self.spec_comm(), i as int + 1);
                }
                result.push(self.comm[i] as u8);
            }
            i = i + 1;
        }
        result
    }
}

/// The circular process table the host maintains, entered at the initial
/// task.
pub struct ProcessTable {
    tasks: Vec<TaskStruct>,
}

impl ProcessTable {
    pub closed spec fn view(self) -> Seq<TaskStruct> {
        self.tasks@
    }

    pub fn new(tasks: Vec<TaskStruct>) -> (t: ProcessTable)
        ensures
            t@ == tasks@,
    {
        ProcessTable { tasks }
    }

    pub fn len(&self) -> (n: usize)
        ensures
            n == self@.len(),
    {
        self.tasks.len()
    }

    /// The process at `i`, borrowed for as long as the table is.
    pub fn get(&self, i: usize) -> (t: &TaskStruct)
        requires
            i < self@.len(),
        ensures
            *t == self@[i as int],
    {
        &self.tasks[i]
    }
}

/// Walks every process in the table while a read-side critical section is
/// held, starting at the initial task and stopping when the cursor returns
/// to its starting point. The guard reference ties the walk to a live
/// critical section; the result lists each process's thread-group
/// identifier, in table order, each exactly once.
pub fn each_process(_guard: &RcuReadGuard, table: &ProcessTable) -> (v: Vec<i32>)
    ensures
        v@.len() == table@.len(),
        forall|k: int| 0 <= k < table@.len() ==> #[trigger] v@[k] == table@[k].spec_tgid(),
{
    let n = table.len();
    let mut v: Vec<i32> = Vec::new();
    if n == 0 {
        return v;
    }
    let mut cursor: usize = 0;
    let mut count: usize = 0;
    while count < n
        invariant
            count <= n,
            n == table@.len(),
            cursor == if count < n {
                count as int
            } else {
                0
            },
            v@.len() == count,
            forall|k: int| 0 <= k < count ==> #[trigger] v@[k] == table@[k].spec_tgid(),
        decreases n - count,
    {
        v.push(table.get(cursor).tgid());
        cursor = if cursor + 1 == n {
            0
        } else {
            cursor + 1
        };
        count = count + 1;
    }
    v
}

} // verus!
