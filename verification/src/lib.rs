use vstd::prelude::*;

pub mod arch;
pub mod barrier;
pub mod bitmap;
pub mod iov;
pub mod mm;
pub mod vm;
pub mod vm_if;

verus! {

} // verus!
