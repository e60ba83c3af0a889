//! Instructions of a block, and where blocks end.
use vstd::prelude::*;
use crate::common::{get_primary_field, primary_field};

verus! {

/// An instruction with room for the registers it reads, indexes memory with and
/// writes; the tags start out empty.
pub struct Insn {
    opcode: u32,
    inputs: Option<Vec<u32>>,
    indices: Option<u32>,
    output: Option<u32>,
}

impl Insn {
    pub closed spec fn op_spec(&self) -> u32 {
        self.opcode
    }

    /// Whether no tag has been filled in.
    pub closed spec fn untagged(&self) -> bool {
        self.inputs is None && self.indices is None && self.output is None
    }

    pub fn new(opcode: u32) -> (r: Self)
        ensures
            r.op_spec() == opcode,
            r.untagged(),
    {
        Insn { opcode, inputs: None, indices: None, output: None }
    }

    pub fn op(&self) -> (r: u32)
        ensures
            r == self.op_spec(),
    {
        self.opcode
    }

    /// Whether `op` continues a block: it is neither a SYSCALL nor an unconditional jump.
    pub fn is_inside_block(op: u32) -> (r: bool)
        ensures
            r == (primary_field(op) != 0xc),
    {
        !(Insn::is_syscall(op) || Insn::is_unconditional_jump(op))
    }

    /// Whether `op` is taken for a SYSCALL: its primary opcode is 0x0C.
    pub fn is_syscall(op: u32) -> (r: bool)
        ensures
            r == (primary_field(op) == 0xc),
    {
        get_primary_field(op) == 0xc
    }

    /// No instruction counts as an unconditional jump here.
    pub fn is_unconditional_jump(op: u32) -> (r: bool)
        ensures
            !r,
    {
        false
    }
}

} // verus!
