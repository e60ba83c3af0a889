//! The interpreter: executes one R3000 instruction at a time against the console state.
//!
//! Memory is not part of this state: an instruction that reads or writes memory
//! reports the access it makes, and the caller performs it (and, for a load, hands the
//! value back with `complete_load`).
use vstd::prelude::*;
use crate::common::{get_rs, get_rt, get_rd, get_imm5, get_imm16, get_imm25, get_imm26, get_primary_field, get_secondary_field, primary_field, secondary_field, rs_field, rt_field, rd_field, imm5_field, imm16_field, imm25_field, imm26_field};
use crate::register::{signed, wrap32, sign_extend_16, sra, and, or, xor, nor, compare, signed_compare, half_sign_extended, to_signed, from_signed};
use crate::console::Console;
use crate::console::Name;
use crate::console::DelayedWrite;
use crate::console::MaybeSet;
use crate::console::r3000::apply_write;
use crate::console::cop0::Cop0;
use crate::console::cop0::Cop0Exception;
use crate::console::gte::GTE;

pub mod spec;

use spec::{executes, executes_special, executes_branch, executes_immediate, executes_cop, executes_load_store, decodable, no_panic, flushed, drop_front, set_gpr, hi_lo_spec, special_spec};

verus! {

/// The size of a memory access.
#[derive(Debug, Clone, Copy, PartialEq, Eq, Structural)]
pub enum Width {
    Byte,
    Half,
    Word,
}

/// The memory access that an instruction makes.
#[derive(Debug, Clone, Copy, PartialEq, Eq, Structural)]
pub enum MemAccess {
    NoAccess,
    /// Read `width` at `address` (sign extended when `signed`) into register `target`,
    /// where it arrives one instruction later.
    Load { address: u32, width: Width, signed: bool, target: u32 },
    /// Write the low `width` of `value` at `address`.
    Store { address: u32, width: Width, value: u32 },
}

/// What executing an instruction leaves for the caller: the address to continue at
/// after the delay slot (when the instruction branches), and the memory access.
#[derive(Debug, Clone, Copy, PartialEq, Eq, Structural)]
pub struct Executed {
    pub next_pc: Option<u32>,
    pub access: MemAccess,
}

pub struct Interpreter {
    pub console: Console,
}

/// The delayed writes all target registers that exist.
pub open spec fn queue_wf(queue: Seq<DelayedWrite>) -> bool {
    forall|i: int| 0 <= i < queue.len() ==> (#[trigger] queue[i]).register_name.valid()
}

impl Interpreter {
    pub open spec fn wf(&self) -> bool {
        queue_wf(self.console.delayed_writes@)
    }

    /// A console right after reset, with the given disc image (or none) in the drive.
    pub fn new(gpu_logging: bool, cd_contents: Option<Vec<u8>>) -> (r: Self)
        ensures
            r.wf(),
            r.console.r3000@ == crate::console::r3000::R3000::new_view(),
            r.console.next_pc is None,
            r.console.delayed_writes@.len() == 0,
            r.console.modified_register is None,
            r.console.cop0.sr() == 0 && r.console.cop0.cause() == 0 && r.console.cop0.epc() == 0,
            r.console.gte.data() == Seq::new(32, |i: int| 0u32),
            r.console.gte.ctrl() == Seq::new(32, |i: int| 0u32),
            r.console.gpu.logging() == gpu_logging,
            r.console.cd.disc() == (match cd_contents {
                Some(v) => Some(v@),
                None => None,
            }),
            r.console.cd.commands().len() == 0,
            r.console.cd.parameters().len() == 0,
            r.console.cd.responses().len() == 0,
            r.console.overwritten@.is_empty(),
            r.console.i == 0,
    {
        Interpreter { console: Console::new(gpu_logging, cd_contents) }
    }

    /// Moves the program counter to the instruction to execute next: the branch target
    /// after a delay slot, else the next word.
    pub fn advance_pc(&mut self)
        ensures
            final(self).console.r3000@ == old(self).console.r3000@.update(
                32,
                match old(self).console.next_pc {
                    Some(pc) => pc,
                    None => wrap32(old(self).console.r3000@[32] + 4),
                },
            ),
            final(self).console.next_pc is None,
            final(self).console.delayed_writes == old(self).console.delayed_writes,
            final(self).console.modified_register == old(self).console.modified_register,
            final(self).console.cop0 == old(self).console.cop0,
            final(self).console.gte == old(self).console.gte,
    {
        let pc = self.console.r3000.pc();
        let next = match self.console.next_pc.take() {
            Some(next_pc) => next_pc,
            None => pc.wrapping_add(4),
        };
        *self.console.r3000.pc_mut() = next;
    }

    /// Hands the value of a load back: it reaches its register one instruction later.
    pub fn complete_load(&mut self, target: u32, value: u32)
        requires
            target < 32,
            old(self).wf(),
        ensures
            final(self).wf(),
            final(self).console.delayed_writes@ == old(self).console.delayed_writes@.push(
                DelayedWrite { register_name: Name::Rn(target), value },
            ),
            final(self).console.r3000 == old(self).console.r3000,
            final(self).console.modified_register == old(self).console.modified_register,
            final(self).console.next_pc == old(self).console.next_pc,
    {
        self.console.delayed_writes.push_back(DelayedWrite::new(Name::Rn(target), value));
    }

    /// General purpose register `idx` as the next instruction reads it: the oldest
    /// delayed load lands first, unless the previous instruction wrote that register.
    pub fn pending_gpr(&self, idx: u32) -> (r: u32)
        requires
            self.wf(),
            idx < 32,
            self.console.r3000@.len() == 35,
        ensures
            r == spec::gpr_of(
                flushed(self.console.r3000@, self.console.delayed_writes@, self.console.modified_register),
                idx,
            ),
    {
        let value = self.console.r3000.nth_reg(idx);
        if idx != 0 && self.console.delayed_writes.len() > 0 {
            let front = &self.console.delayed_writes[0];
            let blocked = match &self.console.modified_register {
                Some(m) => *m == front.register_name,
                None => false,
            };
            if !blocked {
                match front.register_name {
                    Name::Rn(target) => {
                        if target == idx {
                            return front.value;
                        }
                    },
                    _ => {},
                }
            }
        }
        value
    }

    /// Whether `step` can run `op` now: the instruction decodes, and with the
    /// registers it will see it divides by no zero, overflows no signed division and
    /// takes no single-register branch whose offset overflows 16 bits when quadrupled.
    pub fn can_step(&self, op: u32) -> (r: bool)
        requires
            self.wf(),
            self.console.r3000@.len() == 35,
        ensures
            r == (decodable(op) && ({
                let regs = self.console.r3000@.update(
                    32,
                    match self.console.next_pc {
                        Some(pc) => pc,
                        None => wrap32(self.console.r3000@[32] + 4),
                    },
                );
                no_panic(op, flushed(regs, self.console.delayed_writes@, self.console.modified_register))
            })),
    {
        let ghost regs = self.console.r3000@.update(
            32,
            match self.console.next_pc {
                Some(pc) => pc,
                None => wrap32(self.console.r3000@[32] + 4),
            },
        );
        proof {
            let q = self.console.delayed_writes@;
            let m = self.console.modified_register;
            let f0 = flushed(self.console.r3000@, q, m);
            let f1 = flushed(regs, q, m);
            assert forall|i: u32| i < 32 implies spec::gpr_of(f1, i) == spec::gpr_of(f0, i) by {
                if q.len() > 0 {
                    assert(q[0].register_name.valid());
                }
            }
        }
        if !is_decodable(op) {
            return false;
        }
        let p = get_primary_field(op);
        let f = get_secondary_field(op);
        let rs = self.pending_gpr(get_rs(op));
        let rt = self.pending_gpr(get_rt(op));
        if p == 0 && f == 0x1b && rt == 0 {
            return false;
        }
        if p == 0 && f == 0x1a && (rt == 0 || (rs == 0x8000_0000 && rt == 0xffff_ffff)) {
            return false;
        }
        if p == 1 || p == 6 || p == 7 {
            let value = to_signed(rs);
            let taken = if p == 6 {
                value <= 0
            } else if p == 7 {
                value > 0
            } else if get_rt(op) == 0 {
                value < 0
            } else {
                value >= 0
            };
            let off = to_signed(half_sign_extended(get_imm16(op)));
            if taken && !(-0x2000 <= off && off < 0x2000) {
                return false;
            }
        }
        true
    }

    /// One instruction: move to it, execute it, and remember where a branch goes.
    pub fn step(&mut self, op: u32) -> (r: Executed)
        requires
            old(self).wf(),
            decodable(op),
            ({
                let regs = old(self).console.r3000@.update(
                    32,
                    match old(self).console.next_pc {
                        Some(pc) => pc,
                        None => wrap32(old(self).console.r3000@[32] + 4),
                    },
                );
                no_panic(
                    op,
                    flushed(
                        regs,
                        old(self).console.delayed_writes@,
                        old(self).console.modified_register,
                    ),
                )
            }),
        ensures
            final(self).wf(),
            final(self).console.next_pc == r.next_pc,
            ({
                let regs = old(self).console.r3000@.update(
                    32,
                    match old(self).console.next_pc {
                        Some(pc) => pc,
                        None => wrap32(old(self).console.r3000@[32] + 4),
                    },
                );
                executes(
                    op,
                    flushed(
                        regs,
                        old(self).console.delayed_writes@,
                        old(self).console.modified_register,
                    ),
                    drop_front(old(self).console.delayed_writes@),
                    old(self).console.cop0,
                    old(self).console.gte,
                    final(self).console,
                    r,
                )
            }),
    {
        self.advance_pc();
        let r = self.execute_opcode(op);
        self.console.next_pc = r.next_pc;
        r
    }

    /// Executes one instruction. The loads of the previous instruction complete first.
    pub fn execute_opcode(&mut self, op: u32) -> (r: Executed)
        requires
            old(self).wf(),
            decodable(op),
            no_panic(
                op,
                flushed(
                    old(self).console.r3000@,
                    old(self).console.delayed_writes@,
                    old(self).console.modified_register,
                ),
            ),
        ensures
            final(self).wf(),
            executes(
                op,
                flushed(
                    old(self).console.r3000@,
                    old(self).console.delayed_writes@,
                    old(self).console.modified_register,
                ),
                drop_front(old(self).console.delayed_writes@),
                old(self).console.cop0,
                old(self).console.gte,
                final(self).console,
                r,
            ),
            final(self).console.next_pc == old(self).console.next_pc,
            final(self).console.gpu == old(self).console.gpu,
            final(self).console.cd == old(self).console.cd,
            final(self).console.i == old(self).console.i,
            final(self).console.overwritten == old(self).console.overwritten,
    {
        proof {
            self.console.r3000.lemma_len();
        }
        self.console.r3000.flush_write_cache(
            &mut self.console.delayed_writes,
            &mut self.console.modified_register,
        );
        proof {
            self.console.r3000.lemma_len();
            let q0 = old(self).console.delayed_writes@;
            assert forall|i: int| 0 <= i < self.console.delayed_writes@.len() implies (
            #[trigger] self.console.delayed_writes@[i]).register_name.valid() by {
                assert(self.console.delayed_writes@[i] == q0[i + 1]);
            }
        }
        let primary = get_primary_field(op);
        if primary == 0x00 {
            self.execute_special(op)
        } else if primary <= 0x07 {
            self.execute_branch(op)
        } else if primary <= 0x0f {
            self.execute_immediate(op)
        } else if primary == 0x10 || primary == 0x12 {
            self.execute_cop(op)
        } else {
            self.execute_load_store(op)
        }
    }

    /// Writes general purpose register `idx` (nothing for R0) and records it as the
    /// register this instruction modified.
    fn write_gpr(&mut self, idx: u32, value: u32)
        requires
            idx < 32,
            old(self).console.r3000@.len() == 35,
        ensures
            final(self).console.r3000@ == set_gpr(old(self).console.r3000@, idx, value),
            final(self).console.modified_register == (if idx == 0 {
                None
            } else {
                Some(Name::Rn(idx))
            }),
            final(self).console.delayed_writes == old(self).console.delayed_writes,
            final(self).console.cop0 == old(self).console.cop0,
            final(self).console.gte == old(self).console.gte,
            final(self).console.next_pc == old(self).console.next_pc,
            final(self).console.gpu == old(self).console.gpu,
            final(self).console.cd == old(self).console.cd,
            final(self).console.i == old(self).console.i,
            final(self).console.overwritten == old(self).console.overwritten,
    {
        let rd = self.console.r3000.nth_reg_mut(idx);
        self.console.modified_register = rd.maybe_set(value);
    }

    /// Raises an exception at the current program counter and moves to its handler.
    fn raise(&mut self, kind: Cop0Exception)
        requires
            old(self).console.r3000@.len() == 35,
        ensures
            final(self).console.r3000@ == old(self).console.r3000@.update(
                32,
                old(self).console.cop0.exception_vector_spec(),
            ),
            final(self).console.cop0.epc() == old(self).console.r3000@[32],
            final(self).console.cop0.cause() == Cop0::cause_after(
                old(self).console.cop0.cause(),
                kind,
            ),
            final(self).console.cop0.sr() == Cop0::sr_after_exception(
                old(self).console.cop0.sr(),
            ),
            final(self).console.delayed_writes == old(self).console.delayed_writes,
            final(self).console.modified_register == old(self).console.modified_register,
            final(self).console.gte == old(self).console.gte,
            final(self).console.next_pc == old(self).console.next_pc,
            final(self).console.gpu == old(self).console.gpu,
            final(self).console.cd == old(self).console.cd,
            final(self).console.i == old(self).console.i,
            final(self).console.overwritten == old(self).console.overwritten,
    {
        let pc = self.console.r3000.pc();
        let vector = self.console.cop0.generate_exception(kind, pc);
        *self.console.r3000.pc_mut() = vector;
    }

    fn execute_special(&mut self, op: u32) -> (r: Executed)
        requires
            old(self).wf(),
            old(self).console.r3000@.len() == 35,
            old(self).console.modified_register is None,
            primary_field(op) == 0,
            decodable(op),
            no_panic(op, old(self).console.r3000@),
        ensures
            final(self).wf(),
            executes_special(
                op,
                old(self).console.r3000@,
                old(self).console.delayed_writes@,
                old(self).console.cop0,
                old(self).console.gte,
                final(self).console,
                r,
            ),
            final(self).console.next_pc == old(self).console.next_pc,
            final(self).console.gpu == old(self).console.gpu,
            final(self).console.cd == old(self).console.cd,
            final(self).console.i == old(self).console.i,
            final(self).console.overwritten == old(self).console.overwritten,
    {
        let ghost regs = self.console.r3000@;
        let funct = get_secondary_field(op);
        let s = get_rs(op);
        let t = get_rt(op);
        let d = get_rd(op);
        let rs = self.console.r3000.nth_reg(s);
        let rt = self.console.r3000.nth_reg(t);
        let none = Executed { next_pc: None, access: MemAccess::NoAccess };
        if funct == 0x00 || funct == 0x02 || funct == 0x03 || funct == 0x04 || funct == 0x06
            || funct == 0x07 || funct == 0x10 || funct == 0x12 || funct == 0x21 || funct == 0x23
            || (0x24 <= funct && funct <= 0x27) || funct == 0x2a || funct == 0x2b {
            let value = Interpreter::special_value(op, rs, rt, self.console.r3000.hi(), self.console.r3000.lo());
            self.write_gpr(d, value);
            none
        } else if funct == 0x08 {
            // JR
            if rs & 3 != 0 {
                self.raise(Cop0Exception::LoadAddress);
                none
            } else {
                Executed { next_pc: Some(rs), access: MemAccess::NoAccess }
            }
        } else if funct == 0x09 {
            // JALR: the link is written before the target register is read
            let link = self.console.r3000.pc().wrapping_add(4);
            self.write_gpr(d, link);
            let target = self.console.r3000.nth_reg(s);
            if target & 3 != 0 {
                self.raise(Cop0Exception::LoadAddress);
                none
            } else {
                Executed { next_pc: Some(target), access: MemAccess::NoAccess }
            }
        } else if funct == 0x0c {
            self.raise(Cop0Exception::Syscall);
            none
        } else if funct == 0x11 {
            *self.console.r3000.hi_mut() = rs;
            none
        } else if funct == 0x13 {
            *self.console.r3000.lo_mut() = rs;
            none
        } else if funct == 0x18 || funct == 0x19 || funct == 0x1a || funct == 0x1b {
            let (hi, lo) = Interpreter::hi_lo_value(funct, rs, rt);
            *self.console.r3000.hi_mut() = hi;
            *self.console.r3000.lo_mut() = lo;
            none
        } else {
            // ADD and SUB trap when the 64-bit result does not fit in 32 bits
            let wide_rs = rs as u64;
            let wide_rt = rt as u64;
            let result: u64 = if funct == 0x20 {
                wide_rs.wrapping_add(wide_rt)
            } else {
                wide_rs.wrapping_sub(wide_rt)
            };
            if result > 0x0000_0000_ffff_ffff {
                self.raise(Cop0Exception::Overflow);
            } else {
                self.write_gpr(d, result as u32);
            }
            none
        }
    }

    /// The value that a register-writing SPECIAL instruction computes.
    pub(crate) fn special_value(op: u32, rs: u32, rt: u32, hi: u32, lo: u32) -> (r: u32)
        requires
            primary_field(op) == 0,
        ensures
            r == special_spec(secondary_field(op), rs, rt, imm5_field(op), hi, lo),
    {
        let funct = get_secondary_field(op);
        let imm5 = get_imm5(op);
        if funct == 0x00 {
            rt << imm5
        } else if funct == 0x02 {
            rt >> imm5
        } else if funct == 0x03 {
            sra(rt, imm5)
        } else if funct == 0x04 {
            assert(rs & 0x1f < 32) by (bit_vector);
            rt << (rs & 0x1f)
        } else if funct == 0x06 {
            assert(rs & 0x1f < 32) by (bit_vector);
            rt >> (rs & 0x1f)
        } else if funct == 0x07 {
            assert(rs & 0x1f < 32) by (bit_vector);
            sra(rt, rs & 0x1f)
        } else if funct == 0x10 {
            hi
        } else if funct == 0x12 {
            lo
        } else if funct == 0x21 {
            rs.wrapping_add(rt)
        } else if funct == 0x23 {
            rs.wrapping_sub(rt)
        } else if funct == 0x24 {
            and(rs, rt)
        } else if funct == 0x25 {
            or(rs, rt)
        } else if funct == 0x26 {
            xor(rs, rt)
        } else if funct == 0x27 {
            nor(rs, rt)
        } else if funct == 0x2a {
            signed_compare(rs, rt)
        } else if funct == 0x2b {
            compare(rs, rt)
        } else {
            0
        }
    }

    /// HI and LO after MULT, MULTU, DIV or DIVU.
    fn hi_lo_value(funct: u32, rs: u32, rt: u32) -> (r: (u32, u32))
        requires
            funct == 0x18 || funct == 0x19 || funct == 0x1a || funct == 0x1b,
            funct == 0x1b ==> rt != 0,
            funct == 0x1a ==> rt != 0 && !(rs == 0x8000_0000 && rt == 0xffff_ffff),
        ensures
            r == hi_lo_spec(funct, rs, rt),
    {
        if funct == 0x19 {
            assert(rs as int * rt as int <= 0xffff_fffe_0000_0001) by (nonlinear_arith)
                requires rs <= 0xffff_ffff, rt <= 0xffff_ffff, rs >= 0, rt >= 0;
            let result = (rs as u64) * (rt as u64);
            assert(result >> 32 == result / 0x1_0000_0000) by (bit_vector);
            assert(result & 0x0000_0000_ffff_ffff == result % 0x1_0000_0000) by (bit_vector);
            ((result >> 32) as u32, (result & 0x0000_0000_ffff_ffff) as u32)
        } else if funct == 0x18 {
            mult_signed(rs, rt)
        } else if funct == 0x1b {
            let lo = if rt == 0 {
                0xffff_ffff
            } else {
                rs / rt
            };
            (rs % rt, lo)
        } else {
            div_signed(rs, rt)
        }
    }

    fn execute_branch(&mut self, op: u32) -> (r: Executed)
        requires
            old(self).wf(),
            old(self).console.r3000@.len() == 35,
            old(self).console.modified_register is None,
            1 <= primary_field(op) <= 7,
            decodable(op),
            no_panic(op, old(self).console.r3000@),
        ensures
            final(self).wf(),
            executes_branch(
                op,
                old(self).console.r3000@,
                old(self).console.delayed_writes@,
                old(self).console.cop0,
                old(self).console.gte,
                final(self).console,
                r,
            ),
            final(self).console.next_pc == old(self).console.next_pc,
            final(self).console.gpu == old(self).console.gpu,
            final(self).console.cd == old(self).console.cd,
            final(self).console.i == old(self).console.i,
            final(self).console.overwritten == old(self).console.overwritten,
    {
        let primary = get_primary_field(op);
        let rs = self.console.r3000.nth_reg(get_rs(op));
        let rt = self.console.r3000.nth_reg(get_rt(op));
        let pc = self.console.r3000.pc();
        let imm16 = get_imm16(op);
        if primary == 0x02 || primary == 0x03 {
            if primary == 0x03 {
                let ret = pc.wrapping_add(4);
                self.console.modified_register = self.console.r3000.ra_mut().maybe_set(ret);
            }
            let imm26 = get_imm26(op);
            Executed { next_pc: Some(jump_target(pc, imm26)), access: MemAccess::NoAccess }
        } else {
            let taken = if primary == 0x04 {
                rs == rt
            } else if primary == 0x05 {
                rs != rt
            } else {
                let value = to_signed(rs);
                if primary == 0x06 {
                    value <= 0
                } else if primary == 0x07 {
                    value > 0
                } else if get_rt(op) == 0x00 {
                    value < 0
                } else {
                    value >= 0
                }
            };
            if taken {
                Executed { next_pc: Some(relative_target(pc, imm16)), access: MemAccess::NoAccess }
            } else {
                Executed { next_pc: None, access: MemAccess::NoAccess }
            }
        }
    }

    fn execute_immediate(&mut self, op: u32) -> (r: Executed)
        requires
            old(self).wf(),
            old(self).console.r3000@.len() == 35,
            old(self).console.modified_register is None,
            8 <= primary_field(op) <= 0x0f,
            decodable(op),
            no_panic(op, old(self).console.r3000@),
        ensures
            final(self).wf(),
            executes_immediate(
                op,
                old(self).console.r3000@,
                old(self).console.delayed_writes@,
                old(self).console.cop0,
                old(self).console.gte,
                final(self).console,
                r,
            ),
            final(self).console.next_pc == old(self).console.next_pc,
            final(self).console.gpu == old(self).console.gpu,
            final(self).console.cd == old(self).console.cd,
            final(self).console.i == old(self).console.i,
            final(self).console.overwritten == old(self).console.overwritten,
    {
        let primary = get_primary_field(op);
        let rs = self.console.r3000.nth_reg(get_rs(op));
        let t = get_rt(op);
        let imm16 = get_imm16(op);
        let none = Executed { next_pc: None, access: MemAccess::NoAccess };
        if primary == 0x08 {
            // ADDI traps on signed overflow
            let a = to_signed(rs);
            let b = to_signed(half_sign_extended(imm16));
            match a.checked_add(b) {
                Some(sum) => {
                    self.write_gpr(t, from_signed(sum));
                },
                None => {
                    self.raise(Cop0Exception::Overflow);
                },
            }
            none
        } else {
            let value = imm_alu(primary, rs, imm16);
            self.write_gpr(t, value);
            none
        }
    }

    fn execute_cop(&mut self, op: u32) -> (r: Executed)
        requires
            old(self).wf(),
            old(self).console.r3000@.len() == 35,
            old(self).console.modified_register is None,
            primary_field(op) == 0x10 || primary_field(op) == 0x12,
            decodable(op),
        ensures
            final(self).wf(),
            executes_cop(
                op,
                old(self).console.r3000@,
                old(self).console.delayed_writes@,
                old(self).console.cop0,
                old(self).console.gte,
                final(self).console,
                r,
            ),
            final(self).console.next_pc == old(self).console.next_pc,
            final(self).console.gpu == old(self).console.gpu,
            final(self).console.cd == old(self).console.cd,
            final(self).console.i == old(self).console.i,
            final(self).console.overwritten == old(self).console.overwritten,
    {
        let gte = get_primary_field(op) == 0x12;
        let sub = get_rs(op);
        let t = get_rt(op);
        let d = get_rd(op);
        let none = Executed { next_pc: None, access: MemAccess::NoAccess };
        proof {
            self.console.gte.lemma_len();
        }
        if sub == 0x00 {
            // MFCn
            let data = if gte {
                self.console.gte.nth_data_reg(d)
            } else {
                self.console.cop0.nth_data_reg(d)
            };
            self.console.delayed_writes.push_back(DelayedWrite::new(Name::Rn(t), data));
            none
        } else if sub == 0x02 {
            // CFCn
            let data = if gte {
                self.console.gte.nth_ctrl_reg(d)
            } else {
                self.console.cop0.nth_ctrl_reg(d)
            };
            self.console.delayed_writes.push_back(DelayedWrite::new(Name::Rn(t), data));
            none
        } else if sub == 0x04 {
            // MTCn
            let rt = self.console.r3000.nth_reg(t);
            let target = if gte {
                self.console.gte.nth_data_reg_mut(d)
            } else {
                self.console.cop0.nth_data_reg_mut(d)
            };
            self.console.modified_register = target.maybe_set(rt);
            none
        } else if sub == 0x06 {
            // CTCn
            let rt = self.console.r3000.nth_reg(t);
            let target = if gte {
                self.console.gte.nth_ctrl_reg_mut(d)
            } else {
                self.console.cop0.nth_ctrl_reg_mut(d)
            };
            self.console.modified_register = target.maybe_set(rt);
            none
        } else if sub == 0x08 {
            if t == 0x00 {
                // BCnF
                let next_pc = if gte {
                    self.console.gte.bcnf(get_imm16(op))
                } else {
                    self.console.cop0.bcnf(get_imm16(op))
                };
                Executed { next_pc, access: MemAccess::NoAccess }
            } else {
                // BCnT
                none
            }
        } else {
            // COPn imm25
            let next_pc = if gte {
                self.console.gte.execute_command(get_imm25(op))
            } else {
                self.console.cop0.execute_command(get_imm25(op))
            };
            Executed { next_pc, access: MemAccess::NoAccess }
        }
    }

    fn execute_load_store(&mut self, op: u32) -> (r: Executed)
        requires
            old(self).wf(),
            old(self).console.r3000@.len() == 35,
            old(self).console.modified_register is None,
            primary_field(op) >= 0x20,
            decodable(op),
        ensures
            final(self).wf(),
            executes_load_store(
                op,
                old(self).console.r3000@,
                old(self).console.delayed_writes@,
                old(self).console.cop0,
                old(self).console.gte,
                final(self).console,
                r,
            ),
            *final(self) == *old(self),
    {
        let primary = get_primary_field(op);
        let rs = self.console.r3000.nth_reg(get_rs(op));
        let t = get_rt(op);
        let address = rs.wrapping_add(half_sign_extended(get_imm16(op)));
        let access = if primary == 0x20 {
            MemAccess::Load { address, width: Width::Byte, signed: true, target: t }
        } else if primary == 0x21 {
            MemAccess::Load { address, width: Width::Half, signed: true, target: t }
        } else if primary == 0x23 {
            MemAccess::Load { address, width: Width::Word, signed: false, target: t }
        } else if primary == 0x24 {
            MemAccess::Load { address, width: Width::Byte, signed: false, target: t }
        } else if primary == 0x25 {
            MemAccess::Load { address, width: Width::Half, signed: false, target: t }
        } else if self.console.cop0.cache_isolated() {
            // writes are ignored while the cache is isolated
            MemAccess::NoAccess
        } else {
            let rt = self.console.r3000.nth_reg(t);
            let width = if primary == 0x28 {
                Width::Byte
            } else if primary == 0x29 {
                Width::Half
            } else {
                Width::Word
            };
            MemAccess::Store { address, width, value: rt }
        };
        Executed { next_pc: None, access }
    }
}

/// Whether the emulator can decode instruction `op`.
pub fn is_decodable(op: u32) -> (r: bool)
    ensures
        r == decodable(op),
{
    let p = get_primary_field(op);
    let f = get_secondary_field(op);
    let s = get_rs(op);
    let t = get_rt(op);
    if p == 0 {
        f == 0x00 || f == 0x02 || f == 0x03 || f == 0x04 || f == 0x06 || f == 0x07 || f == 0x10
            || f == 0x12 || f == 0x21 || f == 0x23 || (0x24 <= f && f <= 0x27) || f == 0x2a || f
            == 0x2b || f == 0x08 || f == 0x09 || f == 0x0c || f == 0x11 || f == 0x13 || (0x18 <= f
            && f <= 0x1b) || f == 0x20 || f == 0x22
    } else if p == 1 {
        t == 0 || t == 1
    } else if p <= 0x0f {
        true
    } else if p == 0x10 || p == 0x12 {
        s == 0 || s == 2 || s == 4 || s == 6 || (s == 8 && (t == 0 || t == 1)) || s >= 0x10
    } else {
        p == 0x20 || p == 0x21 || p == 0x23 || p == 0x24 || p == 0x25 || p == 0x28 || p == 0x29
            || p == 0x2b
    }
}

/// The value an immediate ALU instruction (ADDIU to LUI, primary opcodes 9 to 15)
/// computes from its source register and its 16-bit immediate.
pub(crate) fn imm_alu(primary: u32, rs: u32, imm16: u32) -> (r: u32)
    requires
        0x09 <= primary <= 0x0f,
        imm16 < 0x1_0000,
    ensures
        r == spec::imm_spec(primary, rs, imm16),
{
    if primary == 0x09 {
        rs.wrapping_add(half_sign_extended(imm16))
    } else if primary == 0x0a {
        signed_compare(rs, imm16)
    } else if primary == 0x0b {
        compare(rs, imm16)
    } else if primary == 0x0c {
        and(rs, imm16)
    } else if primary == 0x0d {
        or(rs, imm16)
    } else if primary == 0x0e {
        xor(rs, imm16)
    } else {
        assert(imm16 << 16 == imm16 * 0x1_0000) by (bit_vector)
            requires
                imm16 < 0x1_0000,
        ;
        imm16 << 16
    }
}

/// The target of J and JAL: the top four bits of the delay slot address, then the
/// word index from the instruction.
pub(crate) fn jump_target(pc: u32, imm26: u32) -> (r: u32)
    requires
        imm26 < 0x400_0000,
    ensures
        r == ((pc & 0xf000_0000) + imm26 * 4) as u32,
{
    let upper = pc & 0xf000_0000;
    assert(upper + imm26 * 4 <= 0xffff_ffff) by (bit_vector)
        requires
            upper == pc & 0xf000_0000,
            imm26 < 0x400_0000,
    ;
    upper + imm26 * 4
}

/// The target of a taken relative branch.
pub(crate) fn relative_target(pc: u32, imm16: u32) -> (r: u32)
    ensures
        r == spec::branch_target(pc, imm16),
{
    let offset = to_signed(half_sign_extended(imm16));
    assert(-0x8000 <= offset < 0x8000);
    let inc = from_signed(offset * 4);
    let r = pc.wrapping_add(inc);
    proof {
        let m: int = 0x1_0000_0000;
        let x = offset as int * 4;
        vstd::arithmetic::div_mod::lemma_add_mod_noop(pc as int, x, m);
        vstd::arithmetic::div_mod::lemma_mod_twice(x, m);
        vstd::arithmetic::div_mod::lemma_add_mod_noop(pc as int, inc as int, m);
    }
    r
}

/// MULT: the signed 64-bit product, split into its high and low words.
fn mult_signed(a: u32, b: u32) -> (r: (u32, u32))
    ensures
        r == hi_lo_spec(0x18, a, b),
{
    let sa = to_signed(a) as i64;
    let sb = to_signed(b) as i64;
    assert(-0x4000_0000_0000_0000 <= sa * sb <= 0x4000_0000_0000_0000) by (nonlinear_arith)
        requires
            -0x8000_0000 <= sa <= 0x8000_0000,
            -0x8000_0000 <= sb <= 0x8000_0000,
    ;
    let p = sa * sb;
    if p >= 0 {
        let lo = (p % 0x1_0000_0000) as u32;
        let hi = ((p / 0x1_0000_0000) % 0x1_0000_0000) as u32;
        (hi, lo)
    } else {
        let q = -(p + 1);
        let lo = 0xffff_ffff - (q % 0x1_0000_0000) as u32;
        let hi = 0xffff_ffff - ((q / 0x1_0000_0000) % 0x1_0000_0000) as u32;
        proof {
            let m: int = 0x1_0000_0000;
            let pi = p as int;
            let qi = q as int;
            vstd::arithmetic::div_mod::lemma_fundamental_div_mod(qi, m);
            let qd = qi / m;
            let qm = qi % m;
            assert(pi == m * (-qd - 1) + (m - 1 - qm)) by (nonlinear_arith)
                requires
                    pi == -qi - 1,
                    qi == m * qd + qm,
            ;
            vstd::arithmetic::div_mod::lemma_fundamental_div_mod_converse(
                pi,
                m,
                -qd - 1,
                m - 1 - qm,
            );
            vstd::arithmetic::div_mod::lemma_fundamental_div_mod(qd, m);
            let qdd = qd / m;
            let qdm = qd % m;
            assert(-qd - 1 == m * (-qdd - 1) + (m - 1 - qdm)) by (nonlinear_arith)
                requires
                    qd == m * qdd + qdm,
            ;
            vstd::arithmetic::div_mod::lemma_fundamental_div_mod_converse(
                -qd - 1,
                m,
                -qdd - 1,
                m - 1 - qdm,
            );
        }
        (hi, lo)
    }
}

/// DIV: quotient (rounded toward zero) in LO and remainder in HI; a negative number
/// divided by -1 leaves 1 in LO.
fn div_signed(a: u32, b: u32) -> (r: (u32, u32))
    requires
        b != 0,
        !(a == 0x8000_0000 && b == 0xffff_ffff),
    ensures
        r == hi_lo_spec(0x1a, a, b),
{
    let sa = to_signed(a);
    let sb = to_signed(b);
    // magnitudes of the operands
    let ma: u32 = if sa < 0 {
        (-(sa as i64)) as u32
    } else {
        sa as u32
    };
    let mb: u32 = if sb < 0 {
        (-(sb as i64)) as u32
    } else {
        sb as u32
    };
    assert(ma == spec::abs(signed(a)) && mb == spec::abs(signed(b)));
    let mq = ma / mb;
    let mr = ma % mb;
    assert(mr < mb);
    assert(mq <= ma) by (nonlinear_arith)
        requires
            mq == ma / mb,
            mb >= 1,
    ;
    proof {
        if mb >= 2 {
            assert(mq <= ma / 2) by (nonlinear_arith)
                requires
                    mq == ma / mb,
                    mb >= 2,
            ;
        }
    }
    let rem: i32 = if sa < 0 {
        -(mr as i32)
    } else {
        mr as i32
    };
    let lo = if sb == -1 && sa < 0 {
        1
    } else if (sa < 0) == (sb < 0) {
        from_signed(mq as i32)
    } else {
        from_signed((-(mq as i64)) as i32)
    };
    (from_signed(rem), lo)
}

} // verus!
