use vstd::prelude::*;

use crate::error::{Error, KernelResult, EINVAL};

verus! {

/// Permission mode bits as the host takes them.
#[derive(Clone, Copy, Debug)]
pub struct Mode(u16);

impl Mode {
    pub closed spec fn view(self) -> u16 {
        self.0
    }

    pub fn from_int(m: u16) -> (r: Mode)
        ensures
            r@ == m,
    {
        Mode(m)
    }

    pub fn as_int(&self) -> (r: u16)
        ensures
            r == self@,
    {
        self.0
    }
}

/// `s` has exactly one NUL byte, and it is the last one: the shape the
/// host's registration entry points require of identifiers.
pub open spec fn is_c_string(s: Seq<u8>) -> bool {
    &&& s.len() >= 1
    &&& s[s.len() - 1] == 0
    &&& forall|i: int| 0 <= i < s.len() - 1 ==> #[trigger] s[i] != 0
}

/// A byte string guaranteed to hold exactly one NUL byte, at the end.
#[derive(Clone, Debug, PartialEq, Eq)]
pub struct CStr {
    bytes: Vec<u8>,
}

impl CStr {
    pub closed spec fn view(self) -> Seq<u8> {
        self.bytes@
    }

    pub open spec fn wf(self) -> bool {
        is_c_string(self@)
    }

    /// Checks `bytes` and wraps it; the bytes must end with their only NUL.
    pub fn new(bytes: Vec<u8>) -> (r: KernelResult<CStr>)
        ensures
            r is Ok <==> is_c_string(bytes@),
            r matches Ok(c) ==> c@ == bytes@ && c.wf(),
            r matches Err(e) ==> e@ == EINVAL as int,
    {
        let n = bytes.len();
        if n == 0 {
            return Err(Error::from_kernel_errno(EINVAL));
        }
        if bytes[n - 1] != 0 {
            return Err(Error::from_kernel_errno(EINVAL));
        }
        let mut i: usize = 0;
        while i < n - 1
            invariant
                n == bytes@.len(),
                1 <= n,
                i <= n - 1,
                forall|j: int| 0 <= j < i ==> #[trigger] bytes@[j] != 0,
            decreases n - 1 - i,
        {
            if bytes[i] == 0 {
                return Err(Error::from_kernel_errno(EINVAL));
            }
            i = i + 1;
        }
        Ok(CStr { bytes })
    }

    /// The bytes, the final NUL included.
    pub fn as_bytes(&self) -> (b: &[u8])
        ensures
            b@ == self@,
    {
        self.bytes.as_slice()
    }

    /// Whether any byte of the string equals `b`.
    pub fn contains(&self, b: u8) -> (r: bool)
        ensures
            r == self@.contains(b),
    {
        let n = self.bytes.len();
        let mut i: usize = 0;
        while i < n
            invariant
                n == self.bytes@.len(),
                i <= n,
                forall|j: int| 0 <= j < i ==> #[trigger] self.bytes@[j] != b,
            decreases n - i,
        {
            if self.bytes[i] == b {
                return true;
            }
            i = i + 1;
        }
        proof {
            assert(forall|j: int| 0 <= j < self@.len() ==> #[trigger] self@[j] != b);
        }
        false
    }
}

} // verus!
