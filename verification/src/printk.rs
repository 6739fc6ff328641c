use vstd::prelude::*;

verus! {

/// Longest log line the console accepts; what goes past it is dropped.
pub const LOG_LINE_MAX: usize = 992;

/// How many bytes of `s` an append to a line already `used` bytes long
/// keeps.
pub open spec fn kept_len(used: int, s: Seq<u8>) -> int {
    if s.len() <= LOG_LINE_MAX - used {
        s.len() as int
    } else {
        LOG_LINE_MAX - used
    }
}

/// Collects the bytes of one log line, up to the console's line limit;
/// what does not fit is silently dropped, as the console itself would.
pub struct LogLineWriter {
    data: Vec<u8>,
}

impl LogLineWriter {
    pub closed spec fn view(self) -> Seq<u8> {
        self.data@
    }

    pub open spec fn wf(self) -> bool {
        self@.len() <= LOG_LINE_MAX
    }

    pub fn new() -> (w: LogLineWriter)
        ensures
            w@ == Seq::<u8>::empty(),
            w.wf(),
    {
        LogLineWriter { data: Vec::new() }
    }

    /// The line collected so far.
    pub fn as_bytes(&self) -> (b: &[u8])
        ensures
            b@ == self@,
    {
        self.data.as_slice()
    }

    /// Appends `s`, keeping only what still fits the line.
    pub fn write_str(&mut self, s: &[u8])
        requires
            old(self).wf(),
        ensures
            final(self).wf(),
            final(self)@ == old(self)@ + s@.take(kept_len(old(self)@.len() as int, s@)),
    {
        let room = LOG_LINE_MAX - self.data.len();
        let copy_len = if s.len() < room {
            s.len()
        } else {
            room
        };
        let mut i: usize = 0;
        while i < copy_len
            invariant
                i <= copy_len,
                copy_len <= s@.len(),
                self.data@ == old(self)@ + s@.take(i as int),
            decreases copy_len - i,
        {
            self.data.push(s[i]);
            proof {
                assert(old(self)@ + s@.take(i as int + 1) =~= (old(self)@ + s@.take(i as int)).push(
                    s@[i as int],
                ));
            }
            i = i + 1;
        }
    }
}

} // verus!
