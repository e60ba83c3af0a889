//! The stubs of this caching interpreter, which do not run anything yet.
use vstd::prelude::*;
use crate::console::Console;

verus! {

/// A stub built from an instruction; executing it leaves the console as it was and
/// never branches.
pub struct Stub {
    op: u32,
}

impl Stub {
    /// The instruction the stub was built from.
    pub closed spec fn op_spec(&self) -> u32 {
        self.op
    }

    pub fn new(op: u32) -> (r: Self)
        ensures
            r.op_spec() == op,
    {
        Stub { op }
    }

    pub fn execute(&self, console: &mut Console) -> (r: Option<u32>)
        ensures
            r is None,
            *final(console) == *old(console),
    {
        None
    }
}

} // verus!
