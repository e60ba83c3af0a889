//! CALL to relative targets, labels, registers and memory.
use vstd::prelude::*;
use super::{MacroAssembler, Label, rexb, low3, modrm, le16, le32, disp};
use super::mov::movq_ir_spec;
use crate::jit::x64_jit::register_allocator::{X64_RAX, X64_RDI};

verus! {

/// CALL rel32, or the 16-bit form when the displacement fits in 16 bits.
pub open spec fn callq_i_spec(imm32: i32) -> Seq<u8> {
    if -0x8000 <= imm32 <= 0x7fff {
        seq![0x66u8, 0xe8] + le16(imm32 as u16)
    } else {
        seq![0xe8u8] + le32(imm32 as u32)
    }
}

/// CALL r64.
pub open spec fn callq_r64_spec(reg: u32) -> Seq<u8> {
    rexb(reg) + seq![0xffu8, modrm(0xc0, 2, reg)]
}

/// CALL [ptr].
pub open spec fn callq_m64_spec(ptr: u32) -> Seq<u8> {
    rexb(ptr) + seq![0xffu8] + if low3(ptr) == 5 {
        seq![0x55u8, 0x00]
    } else {
        seq![modrm(0x00, 2, ptr)] + (if low3(ptr) == 4 {
            seq![0x24u8]
        } else {
            seq![]
        })
    }
}

/// CALL [ptr + offset].
pub open spec fn callq_m64_offset_spec(ptr: u32, offset: i32) -> Seq<u8> {
    if offset == 0 {
        callq_m64_spec(ptr)
    } else {
        rexb(ptr) + seq![0xffu8, modrm(if -128 <= offset <= 127 { 0x50 } else { 0x90 }, 0, ptr)]
            + (if low3(ptr) == 4 {
            seq![0x24u8]
        } else {
            seq![]
        }) + disp(offset)
    }
}

/// A call of the function at `function_addr` with `arg_addr` as its first argument:
/// both go through RAX and RDI, and the stack is lowered by eight bytes around the
/// call to keep it aligned.
pub open spec fn call_with_arg_spec(function_addr: u64, arg_addr: u64) -> Seq<u8> {
    movq_ir_spec(function_addr, X64_RAX) + movq_ir_spec(arg_addr, X64_RDI) + seq![0x48u8, 0x83, 0xec, 0x08]
        + seq![0xffu8, 0xd0] + seq![0x48u8, 0x83, 0xc4, 0x08]
}

impl MacroAssembler {
    /// Four placeholder bytes for a 32-bit displacement to `label`, recorded as the
    /// label's four-byte use.
    fn emit_label_placeholder_i32(&mut self, label: Label)
        requires
            old(self).wf(),
        ensures
            final(self).wf(),
            final(self)@ == old(self)@ + seq![0u8, 0, 0, 0],
            final(self).next_label_spec() == old(self).next_label_spec(),
            final(self).label_wide_use(label) == Some(old(self)@.len() as usize),
            forall|l: Label| l != label ==> final(self).label_wide_use(l) == old(self).label_wide_use(l),
            final(self).labels().1 == old(self).labels().1,
            final(self).labels().2 == old(self).labels().2,
    {
        let placeholder_location = self.len();
        self.push(0x00);
        self.push(0x00);
        self.push(0x00);
        self.push(0x00);
        self.use_wide_label(label, placeholder_location);
        assert(self@ =~= old(self)@ + seq![0u8, 0, 0, 0]);
    }

    pub fn emit_callq_i(&mut self, imm32: i32)
        ensures
            final(self)@ == old(self)@ + callq_i_spec(imm32),
            final(self).labels() == old(self).labels(),
    {
        if -0x8000 <= imm32 && imm32 <= 0x7fff {
            self.emit_callw_i(imm32 as i16);
        } else {
            self.push(0xe8);
            self.emit_imm32(imm32 as u32);
        }
        assert(self@ =~= old(self)@ + callq_i_spec(imm32));
    }

    pub fn emit_callw_i(&mut self, imm16: i16)
        ensures
            final(self)@ == old(self)@ + seq![0x66u8, 0xe8] + le16(imm16 as u16),
            final(self).labels() == old(self).labels(),
    {
        self.push(0x66);
        self.push(0xe8);
        self.emit_imm16(imm16 as u16);
        assert(self@ =~= old(self)@ + seq![0x66u8, 0xe8] + le16(imm16 as u16));
    }

    /// CALL to a label, with a placeholder that the label's definition fills in.
    pub fn emit_call_label(&mut self, label: Label)
        requires
            old(self).wf(),
        ensures
            final(self).wf(),
            final(self)@ == old(self)@ + seq![0xe8u8, 0, 0, 0, 0],
            final(self).next_label_spec() == old(self).next_label_spec(),
            final(self).label_wide_use(label) == Some((old(self)@.len() + 1) as usize),
            forall|l: Label| l != label ==> final(self).label_wide_use(l) == old(self).label_wide_use(l),
            final(self).labels().1 == old(self).labels().1,
            final(self).labels().2 == old(self).labels().2,
    {
        self.push(0xe8);
        self.emit_label_placeholder_i32(label);
        assert(self@ =~= old(self)@ + seq![0xe8u8, 0, 0, 0, 0]);
    }

    pub fn emit_callq_r64(&mut self, reg: u32)
        ensures
            final(self)@ == old(self)@ + callq_r64_spec(reg),
            final(self).labels() == old(self).labels(),
    {
        self.emit_conditional_rexb(reg);
        self.push(0xff);
        self.push(MacroAssembler::modrm_byte(0xc0, 2, reg));
        assert(self@ =~= old(self)@ + callq_r64_spec(reg));
    }

    pub fn emit_callq_m64(&mut self, ptr: u32)
        ensures
            final(self)@ == old(self)@ + callq_m64_spec(ptr),
            final(self).labels() == old(self).labels(),
    {
        proof {
            vstd::arithmetic::power2::lemma2_to64();
        }
        self.emit_conditional_rexb(ptr);
        self.push(0xff);
        let low = crate::register::lowest_bits(ptr, 3);
        if low == 5 {
            self.push(0x55);
            self.push(0x00);
        } else {
            self.push(MacroAssembler::modrm_byte(0x00, 2, ptr));
            if low == 4 {
                self.push(0x24);
            }
        }
        assert(self@ =~= old(self)@ + callq_m64_spec(ptr));
    }

    pub fn emit_callq_m64_offset(&mut self, ptr: u32, offset: i32)
        ensures
            final(self)@ == old(self)@ + callq_m64_offset_spec(ptr, offset),
            final(self).labels() == old(self).labels(),
    {
        proof {
            vstd::arithmetic::power2::lemma2_to64();
        }
        if offset == 0 {
            self.emit_callq_m64(ptr);
        } else {
            self.emit_conditional_rexb(ptr);
            self.push(0xff);
            if -128 <= offset && offset <= 127 {
                self.push(MacroAssembler::opcode_reg(0x50, ptr));
            } else {
                self.push(MacroAssembler::opcode_reg(0x90, ptr));
            }
            if crate::register::lowest_bits(ptr, 3) == 4 {
                self.push(0x24);
            }
            self.emit_disp(offset);
            assert(self@ =~= old(self)@ + callq_m64_offset_spec(ptr, offset));
        }
    }

    /// Calls the function at `function_addr` with `arg_addr` as its argument.
    pub fn emit_call(&mut self, function_addr: u64, arg_addr: u64)
        ensures
            final(self)@ == old(self)@ + call_with_arg_spec(function_addr, arg_addr),
            final(self).labels() == old(self).labels(),
    {
        self.emit_movq_ir(function_addr, X64_RAX);
        self.emit_movq_ir(arg_addr, X64_RDI);
        self.push(0x48);
        self.push(0x83);
        self.push(0xec);
        self.push(0x08);
        self.push(0xff);
        self.push(0xd0);
        self.push(0x48);
        self.push(0x83);
        self.push(0xc4);
        self.push(0x08);
        assert(self@ =~= old(self)@ + call_with_arg_spec(function_addr, arg_addr));
    }

    /// Calls the function at `addr` (through RAX), with no argument.
    pub fn test(&mut self, addr: u64)
        ensures
            final(self)@ == old(self)@ + movq_ir_spec(addr, X64_RAX) + seq![0xffu8, 0xd0],
            final(self).labels() == old(self).labels(),
    {
        self.emit_movq_ir(addr, X64_RAX);
        self.push(0xff);
        self.push(0xd0);
        assert(self@ =~= old(self)@ + movq_ir_spec(addr, X64_RAX) + seq![0xffu8, 0xd0]);
    }
}

} // verus!
