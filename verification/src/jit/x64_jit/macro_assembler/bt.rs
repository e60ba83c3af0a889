//! BT: test a bit of a register or of memory.
use vstd::prelude::*;
use super::{MacroAssembler, rexb, low3, modrm, disp};

verus! {

/// BT r32, imm8.
pub open spec fn btl_ir_spec(imm: u32, reg: u32) -> Seq<u8> {
    rexb(reg) + seq![0x0fu8, 0xba, modrm(0xc0, 4, reg), imm as u8]
}

/// BT [ptr], imm8, as the emitter encodes it.
pub open spec fn btl_im_spec(imm: u32, ptr: u32) -> Seq<u8> {
    rexb(ptr) + seq![0x0fu8, 0xba, modrm(0x00, 4, ptr)] + (if low3(ptr) == 5 {
        seq![0x24u8]
    } else {
        seq![]
    }) + seq![imm as u8]
}

/// BT [ptr + offset], imm8.
pub open spec fn btl_im_offset_spec(imm: u32, ptr: u32, offset: i32) -> Seq<u8> {
    if offset == 0 {
        btl_im_spec(imm, ptr)
    } else {
        rexb(ptr) + seq![0x0fu8, 0xba, modrm(if -128 <= offset <= 127 { 0x40 } else { 0x80 }, 4, ptr)]
            + (if low3(ptr) == 4 {
            seq![0x24u8]
        } else {
            seq![]
        }) + disp(offset)
    }
}

impl MacroAssembler {
    pub fn emit_btl_ir(&mut self, imm: u32, reg: u32)
        requires
            imm < 32,
        ensures
            final(self)@ == old(self)@ + btl_ir_spec(imm, reg),
            final(self).labels() == old(self).labels(),
    {
        self.emit_conditional_rexb(reg);
        self.push(0x0f);
        self.push(0xba);
        self.push(MacroAssembler::modrm_byte(0xc0, 4, reg));
        self.push(imm as u8);
        assert(self@ =~= old(self)@ + btl_ir_spec(imm, reg));
    }

    pub fn emit_btl_im(&mut self, imm: u32, ptr: u32)
        requires
            imm < 32,
        ensures
            final(self)@ == old(self)@ + btl_im_spec(imm, ptr),
            final(self).labels() == old(self).labels(),
    {
        proof {
            vstd::arithmetic::power2::lemma2_to64();
        }
        self.emit_conditional_rexb(ptr);
        self.push(0x0f);
        self.push(0xba);
        self.push(MacroAssembler::modrm_byte(0x00, 4, ptr));
        if crate::register::lowest_bits(ptr, 3) == 5 {
            self.push(0x24);
        }
        self.push(imm as u8);
        assert(self@ =~= old(self)@ + btl_im_spec(imm, ptr));
    }

    pub fn emit_btl_im_offset(&mut self, imm: u32, ptr: u32, offset: i32)
        requires
            imm < 32,
        ensures
            final(self)@ == old(self)@ + btl_im_offset_spec(imm, ptr, offset),
            final(self).labels() == old(self).labels(),
    {
        proof {
            vstd::arithmetic::power2::lemma2_to64();
        }
        if offset == 0 {
            self.emit_btl_im(imm, ptr);
        } else {
            self.emit_conditional_rexb(ptr);
            self.push(0x0f);
            self.push(0xba);
            if -128 <= offset && offset <= 127 {
                self.push(MacroAssembler::modrm_byte(0x40, 4, ptr));
            } else {
                self.push(MacroAssembler::modrm_byte(0x80, 4, ptr));
            }
            if crate::register::lowest_bits(ptr, 3) == 4 {
                self.push(0x24);
            }
            self.emit_disp(offset);
            assert(self@ =~= old(self)@ + btl_im_offset_spec(imm, ptr, offset));
        }
    }
}

} // verus!
