//! MOV between registers, immediates and memory.
use vstd::prelude::*;
use super::{MacroAssembler, rexb, rexrb, rexw, low3, modrm, le32, le64, disp};

verus! {

/// MOV r32, r32.
pub open spec fn movl_rr_spec(src: u32, dest: u32) -> Seq<u8> {
    rexrb(src, dest) + seq![0x89u8, modrm(0xc0, low3(src), dest)]
}

/// MOV r32, imm32.
pub open spec fn movl_ir_spec(imm32: u32, dest: u32) -> Seq<u8> {
    rexb(dest) + seq![(0xb8 + low3(dest)) as u8] + le32(imm32)
}

/// MOV r64, r64.
pub open spec fn movq_rr_spec(src: u32, dest: u32) -> Seq<u8> {
    seq![rexw(src, dest), 0x89u8, modrm(0xc0, low3(src), dest)]
}

/// MOV r64, imm64.
pub open spec fn movq_ir_spec(imm64: u64, dest: u32) -> Seq<u8> {
    seq![rexw(0, dest), (0xb8 + low3(dest)) as u8] + le64(imm64)
}

/// The ModRM byte and what follows it for a register operand `reg` and a memory
/// operand at the address in `ptr`: RBP and R13 need a zero displacement, RSP and
/// R12 a SIB byte.
pub open spec fn indirect(reg: u32, ptr: u32) -> Seq<u8> {
    if low3(ptr) == 5 {
        seq![modrm(0x40, low3(reg), ptr), 0x00u8]
    } else {
        seq![modrm(0x00, low3(reg), ptr)] + (if low3(ptr) == 4 {
            seq![0x24u8]
        } else {
            seq![]
        })
    }
}

/// The same with a displacement `offset` (not zero).
pub open spec fn indirect_offset(reg: u32, ptr: u32, offset: i32) -> Seq<u8> {
    (if low3(ptr) == 5 {
        seq![modrm(0x40, low3(reg), ptr)]
    } else {
        seq![modrm(0x40, low3(reg), ptr)] + (if low3(ptr) == 4 {
            seq![0x24u8]
        } else {
            seq![]
        })
    }) + disp(offset)
}

/// MOV r32, [ptr].
pub open spec fn movl_mr_spec(ptr: u32, dest: u32) -> Seq<u8> {
    rexrb(dest, ptr) + seq![0x8bu8] + indirect(dest, ptr)
}

/// MOV [ptr], r32.
pub open spec fn movl_rm_spec(src: u32, ptr: u32) -> Seq<u8> {
    rexrb(src, ptr) + seq![0x89u8] + indirect(src, ptr)
}

/// MOV [ptr + offset], r32.
pub open spec fn movl_rm_offset_spec(src: u32, ptr: u32, offset: i32) -> Seq<u8> {
    if offset == 0 {
        movl_rm_spec(src, ptr)
    } else {
        rexrb(src, ptr) + seq![0x89u8] + indirect_offset(src, ptr, offset)
    }
}

impl MacroAssembler {
    /// The ModRM byte and what follows (see `indirect`).
    pub(crate) fn emit_indirect(&mut self, reg: u32, ptr: u32)
        ensures
            final(self)@ == old(self)@ + indirect(reg, ptr),
            final(self).labels() == old(self).labels(),
    {
        proof {
            vstd::arithmetic::power2::lemma2_to64();
        }
        let low = crate::register::lowest_bits(ptr, 3);
        if low == 5 {
            self.push(MacroAssembler::modrm_byte(0x40, reg, ptr));
            self.push(0x00);
        } else {
            self.push(MacroAssembler::modrm_byte(0x00, reg, ptr));
            if low == 4 {
                self.push(0x24);
            }
        }
        assert(self@ =~= old(self)@ + indirect(reg, ptr));
    }

    /// The ModRM byte and what follows, with a displacement (see `indirect_offset`).
    pub(crate) fn emit_indirect_offset(&mut self, reg: u32, ptr: u32, offset: i32)
        ensures
            final(self)@ == old(self)@ + indirect_offset(reg, ptr, offset),
            final(self).labels() == old(self).labels(),
    {
        proof {
            vstd::arithmetic::power2::lemma2_to64();
        }
        let low = crate::register::lowest_bits(ptr, 3);
        self.push(MacroAssembler::modrm_byte(0x40, reg, ptr));
        if low != 5 && low == 4 {
            self.push(0x24);
        }
        self.emit_disp(offset);
        assert(self@ =~= old(self)@ + indirect_offset(reg, ptr, offset));
    }

    pub fn emit_movl_rr(&mut self, src: u32, dest: u32)
        ensures
            final(self)@ == old(self)@ + movl_rr_spec(src, dest),
            final(self).labels() == old(self).labels(),
    {
        self.emit_conditional_rexrb(src, dest);
        self.push(0x89);
        self.push(MacroAssembler::modrm_byte(0xc0, src, dest));
        assert(self@ =~= old(self)@ + movl_rr_spec(src, dest));
    }

    pub fn emit_movl_ir(&mut self, imm32: u32, dest: u32)
        ensures
            final(self)@ == old(self)@ + movl_ir_spec(imm32, dest),
            final(self).labels() == old(self).labels(),
    {
        self.emit_conditional_rexb(dest);
        self.push(MacroAssembler::opcode_reg(0xb8, dest));
        self.emit_imm32(imm32);
        assert(self@ =~= old(self)@ + movl_ir_spec(imm32, dest));
    }

    pub fn emit_movq_rr(&mut self, src: u32, dest: u32)
        ensures
            final(self)@ == old(self)@ + movq_rr_spec(src, dest),
            final(self).labels() == old(self).labels(),
    {
        let rex_prefix = 0x48 + MacroAssembler::conditional_rexb(dest) + MacroAssembler::conditional_rexr(src);
        self.push(rex_prefix);
        self.push(0x89);
        self.push(MacroAssembler::modrm_byte(0xc0, src, dest));
        assert(self@ =~= old(self)@ + movq_rr_spec(src, dest));
    }

    pub fn emit_movq_ir(&mut self, imm64: u64, dest: u32)
        ensures
            final(self)@ == old(self)@ + movq_ir_spec(imm64, dest),
            final(self).labels() == old(self).labels(),
    {
        let rex_prefix = 0x48 + MacroAssembler::conditional_rexb(dest);
        self.push(rex_prefix);
        self.push(MacroAssembler::opcode_reg(0xb8, dest));
        self.emit_imm64(imm64);
        assert(self@ =~= old(self)@ + movq_ir_spec(imm64, dest));
    }

    pub fn emit_movl_mr(&mut self, ptr: u32, dest: u32)
        ensures
            final(self)@ == old(self)@ + movl_mr_spec(ptr, dest),
            final(self).labels() == old(self).labels(),
    {
        self.emit_conditional_rexrb(dest, ptr);
        self.push(0x8b);
        self.emit_indirect(dest, ptr);
        assert(self@ =~= old(self)@ + movl_mr_spec(ptr, dest));
    }

    pub fn emit_movl_rm(&mut self, src: u32, ptr: u32)
        ensures
            final(self)@ == old(self)@ + movl_rm_spec(src, ptr),
            final(self).labels() == old(self).labels(),
    {
        self.emit_conditional_rexrb(src, ptr);
        self.push(0x89);
        self.emit_indirect(src, ptr);
        assert(self@ =~= old(self)@ + movl_rm_spec(src, ptr));
    }

    pub fn emit_movl_rm_offset(&mut self, src: u32, ptr: u32, offset: i32)
        ensures
            final(self)@ == old(self)@ + movl_rm_offset_spec(src, ptr, offset),
            final(self).labels() == old(self).labels(),
    {
        if offset == 0 {
            self.emit_movl_rm(src, ptr);
        } else {
            self.emit_conditional_rexrb(src, ptr);
            self.push(0x89);
            self.emit_indirect_offset(src, ptr, offset);
            assert(self@ =~= old(self)@ + movl_rm_offset_spec(src, ptr, offset));
        }
    }

    /// Emits nothing: this MOV from memory with a displacement is not encoded yet.
    pub fn emit_movl_mr_offset(&mut self, ptr: u32, dest: u32, offset: i32)
        ensures
            final(self)@ == old(self)@,
            final(self).labels() == old(self).labels(),
    {
    }
}

} // verus!
