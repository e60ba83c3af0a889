//! AND, ADD, XOR and OR.
use vstd::prelude::*;
use super::{MacroAssembler, rexb, rexrb, rexw, low3, high_reg, modrm, le16, le32, disp};
use crate::jit::x64_jit::register_allocator::X64_RAX;

verus! {

/// An ALU operation of group 1 (opcodes 0x83 and 0x81) with extension `ext` on
/// `dest`: an 8-bit immediate when it fits, else a 32-bit one (with the short form
/// `eax_opcode` for EAX).
pub open spec fn group1_ir_spec(ext: nat, eax_opcode: u8, imm32: i32, dest: u32) -> Seq<u8> {
    if -128 <= imm32 <= 127 {
        seq![0x83u8, modrm(0xc0, ext, dest), imm32 as u8]
    } else {
        (if dest == X64_RAX {
            seq![eax_opcode]
        } else {
            seq![0x81u8, modrm(0xc0, ext, dest)]
        }) + le32(imm32 as u32)
    }
}

/// AND r32, imm32.
pub open spec fn andl_ir_spec(imm32: u32, dest: u32) -> Seq<u8> {
    rexb(dest) + group1_ir_spec(4, 0x25, imm32 as i32, dest)
}

/// ADD r32, r32 or ADD r64, r64 (with `wide`).
pub open spec fn add_rr_spec(wide: bool, src: u32, dest: u32) -> Seq<u8> {
    (if wide {
        seq![rexw(src, dest)]
    } else {
        rexrb(src, dest)
    }) + seq![0x01u8, modrm(0xc0, low3(src), dest)]
}

/// ADD r32, imm32 or ADD r64, imm32 (with `wide`).
pub open spec fn add_ir_spec(wide: bool, imm32: i32, dest: u32) -> Seq<u8> {
    (if wide {
        seq![rexw(0, dest)]
    } else {
        rexb(dest)
    }) + group1_ir_spec(0, 0x05, imm32, dest)
}

/// XOR r16, imm16 and OR r16, imm16 (`opcode` is the short form for AX).
pub open spec fn w_ir_spec(ax_opcode: u8, imm16: u16, dest: u32) -> Seq<u8> {
    seq![0x66u8] + (if dest == X64_RAX {
        seq![ax_opcode]
    } else {
        rexb(dest) + seq![0x81u8, modrm(0xc0, 1, dest)]
    }) + le16(imm16)
}

/// OR r32, r32.
pub open spec fn orl_rr_spec(src: u32, dest: u32) -> Seq<u8> {
    rexrb(src, dest) + seq![0x09u8, modrm(0xc0, low3(src), dest)]
}

/// OR word [ptr], imm16, as the emitter encodes it.
pub open spec fn orw_im_spec(imm16: u16, ptr: u32) -> Seq<u8> {
    seq![0x66u8] + rexb(ptr) + seq![0x81u8] + (if low3(ptr) == 5 {
        seq![0x4du8, 0x00]
    } else {
        seq![(0x08 + low3(ptr)) as u8]
    }) + (if low3(ptr) == 4 {
        seq![0x24u8]
    } else {
        seq![]
    }) + seq![0x01u8] + le16(imm16)
}

/// OR word [ptr + offset], imm16.
pub open spec fn orw_im_offset_spec(imm16: u16, ptr: u32, offset: i32) -> Seq<u8> {
    if offset == 0 {
        orw_im_spec(imm16, ptr)
    } else {
        seq![0x66u8] + rexb(ptr) + seq![0x81u8] + seq![
            (if -128 <= offset <= 127 { 0x48 + low3(ptr) } else { 0x88 + low3(ptr) }) as u8,
        ] + (if low3(ptr) == 4 {
            seq![0x24u8]
        } else {
            seq![]
        }) + disp(offset) + le16(imm16)
    }
}

/// ROL r64, 32 with the REX prefix chosen as 0x49 for registers 0 to 7 and 0x48 for
/// 8 to 15, so that the register rotated is `x64_reg` with bit 3 flipped.
pub open spec fn swap_spec(x64_reg: u32) -> Seq<u8> {
    seq![if high_reg(x64_reg) { 0x48u8 } else { 0x49u8 }, 0xc1u8, (0xc0 + low3(x64_reg)) as u8, 0x20u8]
}

impl MacroAssembler {
    fn emit_group1_ir(&mut self, ext: u32, eax_opcode: u8, imm32: i32, dest: u32)
        requires
            ext < 8,
        ensures
            final(self)@ == old(self)@ + group1_ir_spec(ext as nat, eax_opcode, imm32, dest),
            final(self).labels() == old(self).labels(),
    {
        proof {
            vstd::arithmetic::power2::lemma2_to64();
        }
        if -128 <= imm32 && imm32 <= 127 {
            self.push(0x83);
            self.push(MacroAssembler::modrm_byte(0xc0, ext, dest));
            self.push(imm32 as u8);
        } else {
            if dest == X64_RAX {
                self.push(eax_opcode);
            } else {
                self.push(0x81);
                self.push(MacroAssembler::modrm_byte(0xc0, ext, dest));
            }
            self.emit_imm32(imm32 as u32);
        }
        assert(self@ =~= old(self)@ + group1_ir_spec(ext as nat, eax_opcode, imm32, dest));
    }

    pub fn emit_andl_ir(&mut self, imm32: u32, dest: u32)
        ensures
            final(self)@ == old(self)@ + andl_ir_spec(imm32, dest),
            final(self).labels() == old(self).labels(),
    {
        let simm32 = imm32 as i32;
        self.emit_conditional_rexb(dest);
        self.emit_group1_ir(4, 0x25, simm32, dest);
        assert(self@ =~= old(self)@ + andl_ir_spec(imm32, dest));
    }

    fn emit_add_rr(&mut self, src: u32, dest: u32)
        ensures
            final(self)@ == old(self)@ + seq![0x01u8, modrm(0xc0, low3(src), dest)],
            final(self).labels() == old(self).labels(),
    {
        self.push(0x01);
        self.push(MacroAssembler::modrm_byte(0xc0, src, dest));
    }

    fn emit_add_ir(&mut self, imm32: i32, dest: u32)
        ensures
            final(self)@ == old(self)@ + group1_ir_spec(0, 0x05, imm32, dest),
            final(self).labels() == old(self).labels(),
    {
        self.emit_group1_ir(0, 0x05, imm32, dest);
    }

    pub fn emit_addl_rr(&mut self, src: u32, dest: u32)
        ensures
            final(self)@ == old(self)@ + add_rr_spec(false, src, dest),
            final(self).labels() == old(self).labels(),
    {
        self.emit_conditional_rexrb(src, dest);
        self.emit_add_rr(src, dest);
        assert(self@ =~= old(self)@ + add_rr_spec(false, src, dest));
    }

    pub fn emit_addq_rr(&mut self, src: u32, dest: u32)
        ensures
            final(self)@ == old(self)@ + add_rr_spec(true, src, dest),
            final(self).labels() == old(self).labels(),
    {
        let rex_prefix = 0x48 + MacroAssembler::conditional_rexb(dest) + MacroAssembler::conditional_rexr(src);
        self.push(rex_prefix);
        self.emit_add_rr(src, dest);
        assert(self@ =~= old(self)@ + add_rr_spec(true, src, dest));
    }

    pub fn emit_addl_ir(&mut self, imm32: i32, dest: u32)
        ensures
            final(self)@ == old(self)@ + add_ir_spec(false, imm32, dest),
            final(self).labels() == old(self).labels(),
    {
        self.emit_conditional_rexb(dest);
        self.emit_add_ir(imm32, dest);
        assert(self@ =~= old(self)@ + add_ir_spec(false, imm32, dest));
    }

    pub fn emit_addq_ir(&mut self, imm32: i32, dest: u32)
        ensures
            final(self)@ == old(self)@ + add_ir_spec(true, imm32, dest),
            final(self).labels() == old(self).labels(),
    {
        let rex_prefix = 0x48 + MacroAssembler::conditional_rexb(dest);
        self.push(rex_prefix);
        self.emit_add_ir(imm32, dest);
        assert(self@ =~= old(self)@ + add_ir_spec(true, imm32, dest));
    }

    fn emit_w_ir(&mut self, ax_opcode: u8, imm16: u16, dest: u32)
        ensures
            final(self)@ == old(self)@ + w_ir_spec(ax_opcode, imm16, dest),
            final(self).labels() == old(self).labels(),
    {
        self.push(0x66);
        if dest == X64_RAX {
            self.push(ax_opcode);
        } else {
            self.emit_conditional_rexb(dest);
            self.push(0x81);
            self.push(MacroAssembler::opcode_reg(0xc8, dest));
            proof {
                assert(modrm(0xc0, 1, dest) == (0xc8 + super::low3(dest)) as u8);
            }
        }
        self.emit_imm16(imm16);
        assert(self@ =~= old(self)@ + w_ir_spec(ax_opcode, imm16, dest));
    }

    /// XOR r16, imm16 (encoded with the OR extension for registers other than AX).
    pub fn emit_xorw_ir(&mut self, imm16: u16, dest: u32)
        ensures
            final(self)@ == old(self)@ + w_ir_spec(0x35, imm16, dest),
            final(self).labels() == old(self).labels(),
    {
        self.emit_w_ir(0x35, imm16, dest);
    }

    fn emit_or_rr(&mut self, src: u32, dest: u32)
        ensures
            final(self)@ == old(self)@ + seq![0x09u8, modrm(0xc0, low3(src), dest)],
            final(self).labels() == old(self).labels(),
    {
        self.push(0x09);
        self.push(MacroAssembler::modrm_byte(0xc0, src, dest));
    }

    pub fn emit_orl_rr(&mut self, src: u32, dest: u32)
        ensures
            final(self)@ == old(self)@ + orl_rr_spec(src, dest),
            final(self).labels() == old(self).labels(),
    {
        self.emit_conditional_rexrb(src, dest);
        self.emit_or_rr(src, dest);
        assert(self@ =~= old(self)@ + orl_rr_spec(src, dest));
    }

    pub fn emit_orw_ir(&mut self, imm16: u16, dest: u32)
        ensures
            final(self)@ == old(self)@ + w_ir_spec(0x0d, imm16, dest),
            final(self).labels() == old(self).labels(),
    {
        self.emit_w_ir(0x0d, imm16, dest);
    }

    pub fn emit_orw_im(&mut self, imm16: u16, ptr: u32)
        ensures
            final(self)@ == old(self)@ + orw_im_spec(imm16, ptr),
            final(self).labels() == old(self).labels(),
    {
        proof {
            vstd::arithmetic::power2::lemma2_to64();
        }
        self.push(0x66);
        self.emit_conditional_rexb(ptr);
        self.push(0x81);
        let low = crate::register::lowest_bits(ptr, 3);
        if low == 5 {
            self.push(0x4d);
            self.push(0x00);
        } else {
            self.push(MacroAssembler::opcode_reg(0x08, ptr));
        }
        if low == 4 {
            self.push(0x24);
        }
        self.push(0x01);
        self.emit_imm16(imm16);
        assert(self@ =~= old(self)@ + orw_im_spec(imm16, ptr));
    }

    pub fn emit_orw_im_offset(&mut self, imm16: u16, ptr: u32, offset: i32)
        ensures
            final(self)@ == old(self)@ + orw_im_offset_spec(imm16, ptr, offset),
            final(self).labels() == old(self).labels(),
    {
        proof {
            vstd::arithmetic::power2::lemma2_to64();
        }
        if offset == 0 {
            self.emit_orw_im(imm16, ptr);
        } else {
            self.push(0x66);
            self.emit_conditional_rexb(ptr);
            self.push(0x81);
            let low = crate::register::lowest_bits(ptr, 3);
            if -128 <= offset && offset <= 127 {
                self.push(MacroAssembler::opcode_reg(0x48, ptr));
            } else {
                self.push(MacroAssembler::opcode_reg(0x88, ptr));
            }
            if low == 4 {
                self.push(0x24);
            }
            self.emit_disp(offset);
            self.emit_imm16(imm16);
            assert(self@ =~= old(self)@ + orw_im_offset_spec(imm16, ptr, offset));
        }
    }

    /// Swaps the two halves of a 64-bit register (see `swap_spec` for which one).
    pub fn emit_swap(&mut self, x64_reg: u32)
        ensures
            final(self)@ == old(self)@ + swap_spec(x64_reg),
            final(self).labels() == old(self).labels(),
    {
        proof {
            vstd::arithmetic::power2::lemma2_to64();
        }
        let prefix: u8 = if crate::register::nth_bit_bool(x64_reg, 3) {
            0x48
        } else {
            0x49
        };
        self.push(prefix);
        self.push(0xc1);
        self.push(MacroAssembler::opcode_reg(0xc0, x64_reg));
        self.push(0x20);
        assert(self@ =~= old(self)@ + swap_spec(x64_reg));
    }
}

} // verus!
