//! The unit a cached block is made of.
use vstd::prelude::*;
use crate::jit::insn::Insn;

verus! {

/// One step of a cached block.
#[derive(Debug, Clone, Copy, PartialEq, Eq, Structural)]
pub enum Stub {
    /// Executes the instruction as the interpreter does.
    Opcode(u32),
    /// Does nothing: it stands for an instruction whose only effect is lost (a write
    /// to R0) and keeps a branch delay slot in its place.
    Nop,
    /// Writes a value known when the block was compiled into a register.
    LoadConstant { register: u32, value: u32 },
}

impl Stub {
    /// The stub that executes a tagged instruction as it stands.
    pub fn new(insn: &Insn) -> (r: Self)
        ensures
            r == Stub::Opcode(insn.op_spec()),
    {
        Stub::Opcode(insn.op())
    }
}

} // verus!
