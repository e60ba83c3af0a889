//! Pushes and pops. Each returns by how many bytes it moves the stack pointer
//! (positive for a push), so that callers can track the frame.
use vstd::prelude::*;
use super::{MacroAssembler, rexb, low3, le16, le32};
use crate::jit::x64_jit::register_allocator::{X64_RAX, X64_RSP};

verus! {

/// PUSH of a 64-bit register.
pub open spec fn push_r_spec(reg: u32) -> Seq<u8> {
    rexb(reg) + seq![(0x50 + low3(reg)) as u8]
}

/// POP of a 64-bit register.
pub open spec fn pop_r_spec(reg: u32) -> Seq<u8> {
    rexb(reg) + seq![(0x58 + low3(reg)) as u8]
}

/// PUSH of the value that a register points to.
pub open spec fn push_m_spec(reg: u32) -> Seq<u8> {
    rexb(reg) + seq![0xffu8] + if low3(reg) == 5 {
        seq![0x75u8, 0x00]
    } else {
        seq![(0x30 + low3(reg)) as u8] + (if low3(reg) == 4 {
            seq![0x24u8]
        } else {
            seq![]
        })
    }
}

/// POP into the memory that a register points to.
pub open spec fn pop_m_spec(reg: u32) -> Seq<u8> {
    rexb(reg) + seq![0x8fu8, low3(reg) as u8]
}

impl MacroAssembler {
    pub fn emit_pushfq(&mut self) -> (r: isize)
        ensures
            final(self)@ == old(self)@.push(0x9c),
            final(self).labels() == old(self).labels(),
            r == 8,
    {
        self.push(0x9c);
        8
    }

    pub fn emit_popfq(&mut self) -> (r: isize)
        ensures
            final(self)@ == old(self)@.push(0x9d),
            final(self).labels() == old(self).labels(),
            r == -8,
    {
        self.push(0x9d);
        -8
    }

    /// Moves the stack pointer by `misalignment` bytes and returns the opposite amount.
    pub fn realign_stack(&mut self, misalignment: isize) -> (r: isize)
        requires
            misalignment > isize::MIN,
        ensures
            final(self)@ == old(self)@ + super::alu::add_ir_spec(true, misalignment as i32, X64_RSP),
            final(self).labels() == old(self).labels(),
            r == -misalignment,
    {
        self.emit_addq_ir(misalignment as i32, X64_RSP);
        -misalignment
    }

    fn emit_push_r(&mut self, reg: u32)
        ensures
            final(self)@ == old(self)@ + push_r_spec(reg),
            final(self).labels() == old(self).labels(),
    {
        self.emit_conditional_rexb(reg);
        self.push(MacroAssembler::opcode_reg(0x50, reg));
        assert(self@ =~= old(self)@ + push_r_spec(reg));
    }

    pub fn emit_pushq_r(&mut self, reg: u32) -> (r: isize)
        requires
            reg != X64_RSP,
        ensures
            final(self)@ == old(self)@ + push_r_spec(reg),
            final(self).labels() == old(self).labels(),
            r == 8,
    {
        self.emit_push_r(reg);
        8
    }

    pub fn emit_pushw_r(&mut self, reg: u32) -> (r: isize)
        requires
            reg != X64_RSP,
        ensures
            final(self)@ == old(self)@ + seq![0x66u8] + push_r_spec(reg),
            final(self).labels() == old(self).labels(),
            r == 2,
    {
        self.emit_16bit_prefix();
        self.emit_push_r(reg);
        assert(self@ =~= old(self)@ + seq![0x66u8] + push_r_spec(reg));
        2
    }

    fn emit_pop_r(&mut self, reg: u32)
        ensures
            final(self)@ == old(self)@ + pop_r_spec(reg),
            final(self).labels() == old(self).labels(),
    {
        self.emit_conditional_rexb(reg);
        self.push(MacroAssembler::opcode_reg(0x58, reg));
        assert(self@ =~= old(self)@ + pop_r_spec(reg));
    }

    pub fn emit_popq_r(&mut self, reg: u32) -> (r: isize)
        requires
            reg != X64_RSP,
        ensures
            final(self)@ == old(self)@ + pop_r_spec(reg),
            final(self).labels() == old(self).labels(),
            r == -8,
    {
        self.emit_pop_r(reg);
        -8
    }

    pub fn emit_popw_r(&mut self, reg: u32) -> (r: isize)
        requires
            reg != X64_RSP,
        ensures
            final(self)@ == old(self)@ + seq![0x66u8] + pop_r_spec(reg),
            final(self).labels() == old(self).labels(),
            r == -2,
    {
        self.emit_16bit_prefix();
        self.emit_pop_r(reg);
        assert(self@ =~= old(self)@ + seq![0x66u8] + pop_r_spec(reg));
        -2
    }

    /// Pushes a 64-bit immediate by way of RAX, which it overwrites.
    pub fn emit_pushq_i(&mut self, imm64: u64) -> (r: isize)
        ensures
            final(self)@ == old(self)@ + super::mov::movq_ir_spec(imm64, X64_RAX) + push_r_spec(X64_RAX),
            final(self).labels() == old(self).labels(),
            r == 8,
    {
        self.emit_movq_ir(imm64, X64_RAX);
        let r = self.emit_pushq_r(X64_RAX);
        assert(self@ =~= old(self)@ + super::mov::movq_ir_spec(imm64, X64_RAX) + push_r_spec(X64_RAX));
        r
    }

    /// PUSH of a sign-extended 32-bit immediate, which in 64-bit mode takes eight
    /// bytes of stack.
    pub fn emit_pushl_i(&mut self, imm32: u32) -> (r: isize)
        ensures
            final(self)@ == old(self)@ + seq![0x68u8] + le32(imm32),
            final(self).labels() == old(self).labels(),
            r == 8,
    {
        self.push(0x68);
        self.emit_imm32(imm32);
        assert(self@ =~= old(self)@ + seq![0x68u8] + le32(imm32));
        8
    }

    pub fn emit_pushw_i(&mut self, imm16: u16) -> (r: isize)
        ensures
            final(self)@ == old(self)@ + seq![0x66u8, 0x68] + le16(imm16),
            final(self).labels() == old(self).labels(),
            r == 2,
    {
        self.emit_16bit_prefix();
        self.push(0x68);
        self.emit_imm16(imm16);
        assert(self@ =~= old(self)@ + seq![0x66u8, 0x68] + le16(imm16));
        2
    }

    fn emit_push_m(&mut self, reg: u32)
        ensures
            final(self)@ == old(self)@ + push_m_spec(reg),
            final(self).labels() == old(self).labels(),
    {
        proof {
            vstd::arithmetic::power2::lemma2_to64();
        }
        self.emit_conditional_rexb(reg);
        self.push(0xff);
        let low = crate::register::lowest_bits(reg, 3);
        if low == 5 {
            self.push(0x75);
            self.push(0x00);
        } else {
            self.push(MacroAssembler::opcode_reg(0x30, reg));
            if low == 4 {
                self.push(0x24);
            }
        }
        assert(self@ =~= old(self)@ + push_m_spec(reg));
    }

    /// PUSH of the memory that `reg` points to; without a 16-bit prefix the operand
    /// takes eight bytes of stack in 64-bit mode.
    pub fn emit_pushl_m(&mut self, reg: u32) -> (r: isize)
        requires
            reg != X64_RSP,
        ensures
            final(self)@ == old(self)@ + push_m_spec(reg),
            final(self).labels() == old(self).labels(),
            r == 8,
    {
        self.emit_push_m(reg);
        8
    }

    pub fn emit_pushw_m(&mut self, reg: u32) -> (r: isize)
        requires
            reg != X64_RSP,
        ensures
            final(self)@ == old(self)@ + seq![0x66u8] + push_m_spec(reg),
            final(self).labels() == old(self).labels(),
            r == 2,
    {
        self.emit_16bit_prefix();
        self.emit_push_m(reg);
        assert(self@ =~= old(self)@ + seq![0x66u8] + push_m_spec(reg));
        2
    }

    fn emit_pop_m(&mut self, reg: u32)
        ensures
            final(self)@ == old(self)@ + pop_m_spec(reg),
            final(self).labels() == old(self).labels(),
    {
        self.emit_conditional_rexb(reg);
        self.push(0x8f);
        self.push(MacroAssembler::opcode_reg(0x00, reg));
        assert(self@ =~= old(self)@ + pop_m_spec(reg));
    }

    /// POP into the memory that `reg` points to; without a 16-bit prefix the operand
    /// frees eight bytes of stack in 64-bit mode.
    pub fn emit_popl_m(&mut self, reg: u32) -> (r: isize)
        requires
            reg != X64_RSP,
        ensures
            final(self)@ == old(self)@ + pop_m_spec(reg),
            final(self).labels() == old(self).labels(),
            r == -8,
    {
        self.emit_pop_m(reg);
        -8
    }

    pub fn emit_popw_m(&mut self, reg: u32) -> (r: isize)
        requires
            reg != X64_RSP,
        ensures
            final(self)@ == old(self)@ + seq![0x66u8] + pop_m_spec(reg),
            final(self).labels() == old(self).labels(),
            r == -2,
    {
        self.emit_16bit_prefix();
        self.emit_pop_m(reg);
        assert(self@ =~= old(self)@ + seq![0x66u8] + pop_m_spec(reg));
        -2
    }

    pub fn emit_push_r64(&mut self, reg: u32)
        requires
            reg != X64_RSP,
        ensures
            final(self)@ == old(self)@ + push_r_spec(reg),
            final(self).labels() == old(self).labels(),
    {
        self.emit_push_r(reg);
    }

    pub fn emit_push_r16(&mut self, reg: u32)
        requires
            reg != X64_RSP,
        ensures
            final(self)@ == old(self)@ + seq![0x66u8] + push_r_spec(reg),
            final(self).labels() == old(self).labels(),
    {
        self.emit_pushw_r(reg);
    }

    pub fn emit_pop_r64(&mut self, reg: u32)
        requires
            reg != X64_RSP,
        ensures
            final(self)@ == old(self)@ + pop_r_spec(reg),
            final(self).labels() == old(self).labels(),
    {
        self.emit_pop_r(reg);
    }

    pub fn emit_pop_r16(&mut self, reg: u32)
        requires
            reg != X64_RSP,
        ensures
            final(self)@ == old(self)@ + seq![0x66u8] + pop_r_spec(reg),
            final(self).labels() == old(self).labels(),
    {
        self.emit_popw_r(reg);
    }

    /// Pushes a 64-bit immediate by way of RAX, which it overwrites.
    pub fn emit_push_imm64(&mut self, imm64: u64)
        ensures
            final(self)@ == old(self)@ + super::mov::movq_ir_spec(imm64, X64_RAX) + push_r_spec(X64_RAX),
            final(self).labels() == old(self).labels(),
    {
        self.emit_pushq_i(imm64);
    }

    pub fn emit_push_imm32(&mut self, imm32: u32)
        ensures
            final(self)@ == old(self)@ + seq![0x68u8] + le32(imm32),
            final(self).labels() == old(self).labels(),
    {
        self.emit_pushl_i(imm32);
    }

    pub fn emit_push_imm16(&mut self, imm16: u16)
        ensures
            final(self)@ == old(self)@ + seq![0x66u8, 0x68] + le16(imm16),
            final(self).labels() == old(self).labels(),
    {
        self.emit_pushw_i(imm16);
    }

    pub fn emit_push_m32(&mut self, reg: u32)
        requires
            reg != X64_RSP,
        ensures
            final(self)@ == old(self)@ + push_m_spec(reg),
            final(self).labels() == old(self).labels(),
    {
        self.emit_push_m(reg);
    }

    pub fn emit_pop_m32(&mut self, reg: u32)
        requires
            reg != X64_RSP,
        ensures
            final(self)@ == old(self)@ + pop_m_spec(reg),
            final(self).labels() == old(self).labels(),
    {
        self.emit_pop_m(reg);
    }

    pub fn emit_push_m16(&mut self, reg: u32)
        requires
            reg != X64_RSP,
        ensures
            final(self)@ == old(self)@ + seq![0x66u8] + push_m_spec(reg),
            final(self).labels() == old(self).labels(),
    {
        self.emit_pushw_m(reg);
    }

    pub fn emit_pop_m16(&mut self, reg: u32)
        requires
            reg != X64_RSP,
        ensures
            final(self)@ == old(self)@ + seq![0x66u8] + pop_m_spec(reg),
            final(self).labels() == old(self).labels(),
    {
        self.emit_popw_m(reg);
    }
}

} // verus!
