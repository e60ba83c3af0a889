//! Stack bookkeeping for the code that sets up and tears down a block's frame.
use vstd::prelude::*;
use super::macro_assembler::MacroAssembler;
use super::macro_assembler::alu::add_ir_spec;
use super::macro_assembler::mov::movq_ir_spec;
use super::macro_assembler::stack::push_r_spec;
use super::register_allocator::{X64_RAX, X64_RSP};

verus! {

/// By how many bytes a piece of code moves the stack pointer (positive when it
/// grows the stack).
#[derive(Debug, Clone, Copy, PartialEq, Eq, Structural)]
pub struct StackOffset(pub isize);

/// The code that pushes each of `pointers`, in order, by way of RAX.
pub open spec fn pointer_pushes(pointers: Seq<u64>) -> Seq<u8>
    decreases pointers.len(),
{
    if pointers.len() == 0 {
        Seq::empty()
    } else {
        pointer_pushes(pointers.drop_last()) + movq_ir_spec(pointers.last(), X64_RAX) + push_r_spec(X64_RAX)
    }
}

/// Pushes the addresses that a block's code calls and reads through (the memory
/// accessors, the console, the coprocessor and CPU registers), in order, and returns
/// how far that moves the stack.
pub fn create_pointers(masm: &mut MacroAssembler, pointers: &Vec<u64>) -> (r: StackOffset)
    requires
        pointers@.len() < 0x100_0000,
    ensures
        final(masm)@ == old(masm)@ + pointer_pushes(pointers@),
        final(masm).labels() == old(masm).labels(),
        r.0 == 8 * pointers@.len(),
{
    let mut stack_offset = StackOffset(0);
    let mut i: usize = 0;
    while i < pointers.len()
        invariant
            i <= pointers@.len(),
            pointers@.len() < 0x100_0000,
            masm@ == old(masm)@ + pointer_pushes(pointers@.take(i as int)),
            masm.labels() == old(masm).labels(),
            stack_offset.0 == 8 * i,
        decreases pointers@.len() - i,
    {
        let ghost before = masm@;
        stack_offset.0 = stack_offset.0 + masm.emit_pushq_i(pointers[i]);
        proof {
            assert(pointers@.take(i + 1).drop_last() =~= pointers@.take(i as int));
            assert(masm@ =~= old(masm)@ + pointer_pushes(pointers@.take(i + 1)));
        }
        i = i + 1;
    }
    assert(pointers@.take(i as int) =~= pointers@);
    stack_offset
}

/// Releases `num_bytes` of pointers pushed onto the stack.
pub fn destroy_pointers(masm: &mut MacroAssembler, num_bytes: isize) -> (r: StackOffset)
    requires
        0 <= num_bytes,
    ensures
        final(masm)@ == old(masm)@ + add_ir_spec(true, num_bytes as i32, X64_RSP),
        final(masm).labels() == old(masm).labels(),
        r.0 == -num_bytes,
{
    masm.emit_addq_ir(num_bytes as i32, X64_RSP);
    StackOffset(-num_bytes)
}

} // verus!
