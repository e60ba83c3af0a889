//! XCHG between registers and with memory.
use vstd::prelude::*;
use super::{MacroAssembler, rexrb, rexw, low3, modrm};
use super::mov::{indirect, indirect_offset};
use crate::jit::x64_jit::register_allocator::X64_RAX;

verus! {

/// XCHG r64, r64: the one-byte form when either register is RAX.
pub open spec fn xchgq_rr_spec(reg1: u32, reg2: u32) -> Seq<u8> {
    if reg1 == X64_RAX || reg2 == X64_RAX {
        seq![rexw(0, reg1 | reg2), (0x90 + low3(reg1 | reg2)) as u8]
    } else {
        seq![rexw(reg2, reg1), 0x87u8, modrm(0xc0, low3(reg2), reg1)]
    }
}

/// XCHG [ptr], r32.
pub open spec fn xchgl_rm_spec(reg: u32, ptr: u32) -> Seq<u8> {
    rexrb(reg, ptr) + seq![0x87u8] + indirect(reg, ptr)
}

/// XCHG [ptr + offset], r32.
pub open spec fn xchgl_rm_offset_spec(reg: u32, ptr: u32, offset: i32) -> Seq<u8> {
    if offset == 0 {
        xchgl_rm_spec(reg, ptr)
    } else {
        rexrb(reg, ptr) + seq![0x87u8] + indirect_offset(reg, ptr, offset)
    }
}

impl MacroAssembler {
    pub fn emit_xchgq_rr(&mut self, reg1: u32, reg2: u32)
        ensures
            final(self)@ == old(self)@ + xchgq_rr_spec(reg1, reg2),
            final(self).labels() == old(self).labels(),
    {
        if reg1 == X64_RAX || reg2 == X64_RAX {
            let rex_prefix = 0x48 + MacroAssembler::conditional_rexb(reg1 | reg2);
            self.push(rex_prefix);
            self.push(MacroAssembler::opcode_reg(0x90, reg1 | reg2));
        } else {
            let rex_prefix = 0x48 + MacroAssembler::conditional_rexb(reg1) + MacroAssembler::conditional_rexr(reg2);
            self.push(rex_prefix);
            self.push(0x87);
            self.push(MacroAssembler::modrm_byte(0xc0, reg2, reg1));
        }
        assert(self@ =~= old(self)@ + xchgq_rr_spec(reg1, reg2));
    }

    pub fn emit_xchgl_rm(&mut self, reg: u32, ptr: u32)
        ensures
            final(self)@ == old(self)@ + xchgl_rm_spec(reg, ptr),
            final(self).labels() == old(self).labels(),
    {
        self.emit_conditional_rexrb(reg, ptr);
        self.push(0x87);
        self.emit_indirect(reg, ptr);
        assert(self@ =~= old(self)@ + xchgl_rm_spec(reg, ptr));
    }

    pub fn emit_xchgl_rm_offset(&mut self, reg: u32, ptr: u32, offset: i32)
        ensures
            final(self)@ == old(self)@ + xchgl_rm_offset_spec(reg, ptr, offset),
            final(self).labels() == old(self).labels(),
    {
        if offset == 0 {
            self.emit_xchgl_rm(reg, ptr);
        } else {
            self.emit_conditional_rexrb(reg, ptr);
            self.push(0x87);
            self.emit_indirect_offset(reg, ptr, offset);
            assert(self@ =~= old(self)@ + xchgl_rm_offset_spec(reg, ptr, offset));
        }
    }
}

} // verus!
