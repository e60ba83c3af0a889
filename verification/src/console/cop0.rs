//! Coprocessor 0: the status (R12), cause (R13) and exception PC (R14) registers.
use vstd::prelude::*;
use super::MaybeSet;
use super::Name;
use crate::register::nth_bit;
use crate::register::nth_bit_bool;
use crate::register::clear;
use crate::register::set_mask;
use crate::register::clear_mask;

verus! {

/// The exceptions that the emulator raises.
#[derive(Debug, Clone, Copy, PartialEq, Eq, Structural)]
pub enum Cop0Exception {
    Interrupt,
    LoadAddress,
    StoreAddress,
    Syscall,
    Overflow,
}

/// The exception code that the cause register records for an exception.
pub open spec fn exception_code(kind: Cop0Exception) -> u32 {
    match kind {
        Cop0Exception::Interrupt => 0x00,
        Cop0Exception::LoadAddress => 0x04,
        Cop0Exception::StoreAddress => 0x05,
        Cop0Exception::Syscall => 0x08,
        Cop0Exception::Overflow => 0x0C,
    }
}

impl<'a> MaybeSet for Option<&'a mut u32> {
    /// Sets the coprocessor register if there is one; coprocessor registers take no
    /// part in delayed-load ordering, so no name is returned.
    fn maybe_set(self, value: u32) -> (r: Option<Name>)
        ensures
            r is None,
            self matches Some(m) ==> *final(m) == value,
    {
        match self {
            Some(reg) => {
                *reg = value;
            },
            None => {},
        }
        None
    }
}

/// Only R12, R13 and R14 are kept.
pub struct Cop0 {
    registers: [u32; 3],
}

impl Cop0 {
    const IDX_R12: usize = 0;

    const IDX_R13: usize = 1;

    const IDX_R14: usize = 2;

    /// The status register, R12.
    pub closed spec fn sr(&self) -> u32 {
        self.registers@[0]
    }

    /// The cause register, R13.
    pub closed spec fn cause(&self) -> u32 {
        self.registers@[1]
    }

    /// The exception PC, R14.
    pub closed spec fn epc(&self) -> u32 {
        self.registers@[2]
    }

    /// The value of data register `idx` as reads see it.
    pub open spec fn data_reg(&self, idx: u32) -> u32 {
        if idx == 12 {
            self.sr()
        } else if idx == 13 {
            self.cause()
        } else if idx == 14 {
            self.epc()
        } else {
            0
        }
    }

    /// The cause register after an exception of the given kind: the exception code
    /// field (bits 2 to 6) holds the kind's code, the other bits are kept.
    pub open spec fn cause_after(cause: u32, kind: Cop0Exception) -> u32 {
        (cause & 0xffff_ff83) | (exception_code(kind) << 2)
    }

    /// The status register after an exception: interrupts are disabled (bit 0 cleared)
    /// and the previous interrupt enable bit (bit 2) holds the old bit 0.
    pub open spec fn sr_after_exception(sr: u32) -> u32 {
        (sr & 0xffff_fffa) | ((sr & 1) << 2)
    }

    /// The status register after RFE: the interrupt enable / kernel mode stack is
    /// popped (bits 2-3 move to 0-1, bits 4-5 move to 2-3 and stay in 4-5).
    pub open spec fn sr_after_rfe(sr: u32) -> u32 {
        (sr & 0xffff_fff0) | ((sr & 0xc) >> 2) | ((sr & 0x30) >> 2)
    }

    /// The address of the exception handler: the boot vector when BEV (bit 22) is set.
    pub open spec fn exception_vector_spec(&self) -> u32 {
        if (self.sr() >> 22) & 1 == 1 {
            0xbfc0_0180
        } else {
            0x8000_0080
        }
    }

    pub fn new() -> (r: Self)
        ensures
            r.sr() == 0,
            r.cause() == 0,
            r.epc() == 0,
    {
        Cop0 { registers: [0u32; 3] }
    }

    pub fn nth_data_reg(&self, idx: u32) -> (r: u32)
        ensures
            r == self.data_reg(idx),
    {
        match idx {
            12 => self.registers[Cop0::IDX_R12],
            13 => self.registers[Cop0::IDX_R13],
            14 => self.registers[Cop0::IDX_R14],
            _ => 0,
        }
    }

    pub fn nth_data_reg_mut(&mut self, idx: u32) -> (r: Option<&mut u32>)
        ensures
            idx != 12 && idx != 13 && idx != 14 ==> r is None && *final(self) == *old(self),
            idx == 12 ==> (r matches Some(m) && *m == old(self).sr() && final(self).sr()
                == *final(m) && final(self).cause() == old(self).cause() && final(self).epc()
                == old(self).epc()),
            idx == 13 ==> (r matches Some(m) && *m == old(self).cause() && final(self).cause()
                == *final(m) && final(self).sr() == old(self).sr() && final(self).epc()
                == old(self).epc()),
            idx == 14 ==> (r matches Some(m) && *m == old(self).epc() && final(self).epc()
                == *final(m) && final(self).sr() == old(self).sr() && final(self).cause()
                == old(self).cause()),
    {
        match idx {
            12 => Some(&mut self.registers[Cop0::IDX_R12]),
            13 => Some(&mut self.registers[Cop0::IDX_R13]),
            14 => Some(&mut self.registers[Cop0::IDX_R14]),
            _ => None,
        }
    }

    /// COP0 has no control registers: reads give zero.
    pub fn nth_ctrl_reg(&self, idx: u32) -> (r: u32)
        ensures
            r == 0,
    {
        0
    }

    /// COP0 has no control registers: there is nothing to write.
    pub fn nth_ctrl_reg_mut(&mut self, idx: u32) -> (r: Option<&mut u32>)
        ensures
            r is None,
            *final(self) == *old(self),
    {
        None
    }

    /// BC0F is not implemented by COP0: it never branches.
    pub fn bcnf(&self, imm16: u32) -> (r: Option<u32>)
        ensures
            r is None,
    {
        None
    }

    /// Marks an interrupt as pending (bit 10 of the cause register).
    pub fn request_interrupt(&mut self, irq: u32)
        ensures
            final(self).cause() == old(self).cause() | 0x400,
            final(self).sr() == old(self).sr(),
            final(self).epc() == old(self).epc(),
    {
        let cause = crate::register::set(self.registers[Cop0::IDX_R13], 10);
        self.registers[Cop0::IDX_R13] = cause;
        assert(1u32 << 10u32 == 0x400) by (bit_vector);
    }

    /// Records an exception (its PC and cause), disables interrupts, and returns the
    /// address of the handler.
    pub fn generate_exception(&mut self, kind: Cop0Exception, current_pc: u32) -> (r: u32)
        ensures
            r == old(self).exception_vector_spec(),
            final(self).epc() == current_pc,
            final(self).cause() == Self::cause_after(old(self).cause(), kind),
            final(self).sr() == Self::sr_after_exception(old(self).sr()),
    {
        let ghost sr0 = self.sr();
        self.store_pc(current_pc);
        let cause = match kind {
            Cop0Exception::Interrupt => 0x00,
            Cop0Exception::LoadAddress => 0x04,
            Cop0Exception::StoreAddress => 0x05,
            Cop0Exception::Syscall => 0x08,
            Cop0Exception::Overflow => 0x0C,
        };
        self.set_exception_cause(cause);
        self.disable_interrupts();
        proof {
            let s = sr0;
            assert(((s & 0xffff_fffa) | ((s & 1) << 2)) >> 22 & 1 == (s >> 22) & 1) by (bit_vector);
        }
        self.exception_vector()
    }

    /// Whether the data cache is isolated (bit 16 of the status register).
    pub fn cache_isolated(&self) -> (r: bool)
        ensures
            r == ((self.sr() >> 16) & 1 == 1),
    {
        nth_bit_bool(self.registers[Cop0::IDX_R12], 16)
    }

    /// Executes a COP0 command; RFE (0x10) is the only one, and no command branches.
    pub fn execute_command(&mut self, imm25: u32) -> (r: Option<u32>)
        ensures
            r is None,
            imm25 == 0x10 ==> final(self).sr() == Self::sr_after_rfe(old(self).sr()),
            imm25 != 0x10 ==> final(self).sr() == old(self).sr(),
            final(self).cause() == old(self).cause(),
            final(self).epc() == old(self).epc(),
    {
        if imm25 == 0x0000_0010 {
            let sr = self.registers[Cop0::IDX_R12];
            let bits2_3 = (sr & 0x0000_000c) >> 2;
            let bits4_5 = (sr & 0x0000_0030) >> 2;
            let new_sr = set_mask(set_mask(clear_mask(sr, 0x0f), bits2_3), bits4_5);
            assert(!0x0fu32 == 0xffff_fff0u32) by (bit_vector);
            self.registers[Cop0::IDX_R12] = new_sr;
        }
        None
    }

    fn store_pc(&mut self, current_pc: u32)
        ensures
            final(self).epc() == current_pc,
            final(self).sr() == old(self).sr(),
            final(self).cause() == old(self).cause(),
    {
        self.registers[Cop0::IDX_R14] = current_pc;
    }

    fn set_exception_cause(&mut self, cause: u32)
        requires
            cause < 0x20,
        ensures
            final(self).cause() == (old(self).cause() & 0xffff_ff83) | (cause << 2),
            final(self).sr() == old(self).sr(),
            final(self).epc() == old(self).epc(),
    {
        let c = self.registers[Cop0::IDX_R13];
        let c = set_mask(clear(clear(clear(clear(clear(c, 2), 3), 4), 5), 6), cause << 2);
        proof {
            let x = self.registers@[1];
            assert(((((x & !(1u32 << 2u32)) & !(1u32 << 3u32)) & !(1u32 << 4u32)) & !(1u32
                << 5u32)) & !(1u32 << 6u32) == x & 0xffff_ff83) by (bit_vector);
        }
        self.registers[Cop0::IDX_R13] = c;
    }

    fn exception_vector(&self) -> (r: u32)
        ensures
            r == self.exception_vector_spec(),
    {
        if nth_bit_bool(self.registers[Cop0::IDX_R12], 22) {
            0xbfc00180
        } else {
            0x80000080
        }
    }

    fn disable_interrupts(&mut self)
        ensures
            final(self).sr() == Self::sr_after_exception(old(self).sr()),
            final(self).cause() == old(self).cause(),
            final(self).epc() == old(self).epc(),
    {
        let sr = self.registers[Cop0::IDX_R12];
        let prev = nth_bit(sr, 0);
        let new_sr = set_mask(clear(clear(sr, 0), 2), prev << 2);
        proof {
            assert((((sr & !(1u32 << 0u32)) & !(1u32 << 2u32)) | (((sr >> 0u32) & 1) << 2u32)) == (
            sr & 0xffff_fffa) | ((sr & 1) << 2)) by (bit_vector);
        }
        self.registers[Cop0::IDX_R12] = new_sr;
    }
}

/// Returning from an exception (RFE) gives back the interrupt enable bit that the
/// exception cleared, and leaves the old-mode bits 4 and 5 as they were.
pub proof fn lemma_rfe_restores_interrupt_enable(sr: u32)
    ensures
        Cop0::sr_after_rfe(Cop0::sr_after_exception(sr)) & 1 == sr & 1,
        Cop0::sr_after_rfe(Cop0::sr_after_exception(sr)) & 0x30 == sr & 0x30,
        Cop0::sr_after_exception(sr) & 1 == 0,
{
    assert(((((sr & 0xffff_fffa) | ((sr & 1) << 2)) & 0xffff_fff0) | ((((sr & 0xffff_fffa) | ((
    sr & 1) << 2)) & 0xc) >> 2) | ((((sr & 0xffff_fffa) | ((sr & 1) << 2)) & 0x30) >> 2)) & 1 == sr
        & 1) by (bit_vector);
    assert(((((sr & 0xffff_fffa) | ((sr & 1) << 2)) & 0xffff_fff0) | ((((sr & 0xffff_fffa) | ((
    sr & 1) << 2)) & 0xc) >> 2) | ((((sr & 0xffff_fffa) | ((sr & 1) << 2)) & 0x30) >> 2)) & 0x30
        == sr & 0x30) by (bit_vector);
    assert(((sr & 0xffff_fffa) | ((sr & 1) << 2)) & 1 == 0) by (bit_vector);
}

} // verus!
