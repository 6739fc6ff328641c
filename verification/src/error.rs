use vstd::prelude::*;

verus! {

/// Status convention of the kernel interface: zero means success and a
/// negative value is an error whose magnitude identifies the kind.
pub const EINVAL: i32 = -22;

pub const ENOMEM: i32 = -12;

pub const EFAULT: i32 = -14;

pub const ESPIPE: i32 = -29;

pub const EAGAIN: i32 = -11;

/// An error as the kernel reports it: a raw errno status value.
#[derive(Clone, Copy, Debug, PartialEq, Eq, Structural)]
pub struct Error {
    errno: i32,
}

impl Error {
    /// The raw status value carried by this error.
    pub closed spec fn view(self) -> int {
        self.errno as int
    }

    /// Wraps a raw kernel status value without interpreting it.
    pub fn from_kernel_errno(errno: i32) -> (e: Error)
        ensures
            e@ == errno as int,
    {
        Error { errno }
    }

    /// Returns the raw status value, for handing back across the interface.
    pub fn to_kernel_errno(&self) -> (r: i32)
        ensures
            r as int == self@,
    {
        self.errno
    }
}

pub type KernelResult<T> = Result<T, Error>;

} // verus!
