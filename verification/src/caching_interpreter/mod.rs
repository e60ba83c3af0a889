//! An earlier caching interpreter: blocks end at the first SYSCALL, and constant
//! folding may turn memory accesses at known addresses into direct ones.
use vstd::prelude::*;
use crate::console::Console;
use crate::console::r3000::R3000;

pub mod insn;
pub mod optimize;
pub mod stub;

verus! {

pub struct CachingInterpreter {
    pub console: Console,
}

impl CachingInterpreter {
    /// A caching interpreter for a console fresh from reset.
    pub fn new(gpu_logging: bool, cd_contents: Option<Vec<u8>>) -> (r: Self)
        ensures
            r.console.r3000@ == R3000::new_view(),
            r.console.gpu.logging() == gpu_logging,
            r.console.i == 0,
    {
        CachingInterpreter { console: Console::new(gpu_logging, cd_contents) }
    }
}

} // verus!
