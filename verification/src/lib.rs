pub mod chrdev;
pub mod devices;
pub mod error;
pub mod file_operations;
pub mod filesystem;
pub mod printk;
pub mod rcu;
pub mod sched;
pub mod sysctl;
pub mod types;
pub mod user_ptr;

use vstd::prelude::*;

pub use error::{Error, KernelResult};
pub use types::{CStr, Mode};

verus! {

/// Entry point of an extension module: `init` runs at load time and its
/// result decides whether the module stays loaded. Teardown happens when the
/// value returned by `init` is released.
pub trait KernelModule: Sized {
    fn init() -> KernelResult<Self>;
}

} // verus!
