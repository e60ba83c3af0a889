//! What executing an R3000 instruction does, stated over the register file.
use vstd::prelude::*;
use crate::common::{get_rs, get_rt, get_rd, get_imm5, get_imm16, get_imm25, get_imm26, get_primary_field, get_secondary_field, primary_field, secondary_field, rs_field, rt_field, rd_field, imm5_field, imm16_field, imm25_field, imm26_field};
use crate::register::{signed, wrap32, sign_extend_16, sra, and, or, xor, nor, compare, signed_compare, half_sign_extended, to_signed, from_signed};
use crate::console::Console;
use crate::console::Name;
use crate::console::DelayedWrite;
use crate::console::r3000::apply_write;
use crate::console::cop0::Cop0;
use crate::console::cop0::Cop0Exception;
use crate::console::gte::GTE;
use super::Executed;
use super::MemAccess;
use super::Width;

verus! {

/// General purpose register `i` of a register file; R0 reads as zero.
pub open spec fn gpr_of(regs: Seq<u32>, i: u32) -> u32 {
    if i == 0 {
        0
    } else {
        regs[i as int]
    }
}

/// A register file with general purpose register `i` written (writes to R0 are lost).
pub open spec fn set_gpr(regs: Seq<u32>, i: u32, value: u32) -> Seq<u32> {
    if i == 0 {
        regs
    } else {
        regs.update(i as int, value)
    }
}

/// The register that an instruction is recorded to have modified, for delayed-load
/// ordering: a write to R0 records none.
pub open spec fn modified_by(i: u32) -> Option<Name> {
    if i == 0 {
        None
    } else {
        Some(Name::Rn(i))
    }
}

/// The registers once the oldest delayed load has landed, unless the previous
/// instruction wrote that register itself.
pub open spec fn flushed(regs: Seq<u32>, queue: Seq<DelayedWrite>, modified: Option<Name>) -> Seq<
    u32,
> {
    if queue.len() > 0 && modified != Some(queue[0].register_name) {
        apply_write(regs, queue[0])
    } else {
        regs
    }
}

/// The delayed loads that are still to land once the oldest has.
pub open spec fn drop_front(queue: Seq<DelayedWrite>) -> Seq<DelayedWrite> {
    if queue.len() > 0 {
        queue.drop_first()
    } else {
        queue
    }
}

/// The SPECIAL (primary opcode 0) functions that write a general purpose register and
/// never trap.
pub open spec fn special_writes_register(funct: u32) -> bool {
    funct == 0x00 || funct == 0x02 || funct == 0x03 || funct == 0x04 || funct == 0x06 || funct
        == 0x07 || funct == 0x10 || funct == 0x12 || funct == 0x21 || funct == 0x23 || (0x24
        <= funct <= 0x27) || funct == 0x2a || funct == 0x2b
}

/// The value that such a function writes.
pub open spec fn special_spec(funct: u32, rs: u32, rt: u32, shamt: u32, hi: u32, lo: u32) -> u32 {
    if funct == 0x00 {
        rt << shamt
    } else if funct == 0x02 {
        rt >> shamt
    } else if funct == 0x03 {
        ((rt as i32) >> shamt) as u32
    } else if funct == 0x04 {
        rt << (rs & 0x1f)
    } else if funct == 0x06 {
        rt >> (rs & 0x1f)
    } else if funct == 0x07 {
        ((rt as i32) >> (rs & 0x1f)) as u32
    } else if funct == 0x10 {
        hi
    } else if funct == 0x12 {
        lo
    } else if funct == 0x21 {
        wrap32(rs + rt)
    } else if funct == 0x23 {
        wrap32(rs - rt)
    } else if funct == 0x24 {
        rs & rt
    } else if funct == 0x25 {
        rs | rt
    } else if funct == 0x26 {
        rs ^ rt
    } else if funct == 0x27 {
        !(rs | rt)
    } else if funct == 0x2a {
        if signed(rs) < signed(rt) {
            1
        } else {
            0
        }
    } else if funct == 0x2b {
        if rs < rt {
            1
        } else {
            0
        }
    } else {
        0
    }
}

/// A quotient rounded toward zero.
pub open spec fn trunc_div(a: int, b: int) -> int {
    let q = abs(a) / abs(b);
    if (a < 0) == (b < 0) {
        q
    } else {
        -q
    }
}

/// The remainder that goes with `trunc_div`: it has the sign of the dividend.
pub open spec fn trunc_rem(a: int, b: int) -> int {
    let r = abs(a) % abs(b);
    if a < 0 {
        -r
    } else {
        r
    }
}

pub open spec fn abs(a: int) -> int {
    if a < 0 {
        -a
    } else {
        a
    }
}

/// HI and LO after a multiplication or a division.
pub open spec fn hi_lo_spec(funct: u32, rs: u32, rt: u32) -> (u32, u32) {
    if funct == 0x18 {
        let p = signed(rs) * signed(rt);
        (wrap32(p / 0x1_0000_0000), wrap32(p))
    } else if funct == 0x19 {
        let p = rs * rt;
        ((p / 0x1_0000_0000) as u32, (p % 0x1_0000_0000) as u32)
    } else if funct == 0x1a {
        let lo = if signed(rt) == -1 && signed(rs) < 0 {
            1u32
        } else {
            wrap32(trunc_div(signed(rs), signed(rt)))
        };
        (wrap32(trunc_rem(signed(rs), signed(rt))), lo)
    } else {
        (rs % rt, rs / rt)
    }
}

/// The value that an immediate ALU instruction (primary opcode 9 to 15) writes. The
/// comparisons take the immediate as it stands (zero extended), like the logic ops.
pub open spec fn imm_spec(primary: u32, rs: u32, imm: u32) -> u32 {
    if primary == 0x09 {
        wrap32(rs + sign_extend_16(imm))
    } else if primary == 0x0a {
        if signed(rs) < signed(imm) {
            1
        } else {
            0
        }
    } else if primary == 0x0b {
        if rs < imm {
            1
        } else {
            0
        }
    } else if primary == 0x0c {
        rs & imm
    } else if primary == 0x0d {
        rs | imm
    } else if primary == 0x0e {
        rs ^ imm
    } else {
        (imm * 0x1_0000) as u32
    }
}

/// Whether a conditional branch on one register (BLTZ, BGEZ, BLEZ, BGTZ) is taken.
pub open spec fn zero_branch_taken(op: u32, rs: u32) -> bool {
    let p = primary_field(op);
    if p == 0x06 {
        signed(rs) <= 0
    } else if p == 0x07 {
        signed(rs) > 0
    } else if rt_field(op) == 0 {
        signed(rs) < 0
    } else {
        signed(rs) >= 0
    }
}

/// Where a taken relative branch goes: the delay slot address plus four times the
/// signed offset.
pub open spec fn branch_target(pc: u32, imm: u32) -> u32 {
    wrap32(pc + signed(sign_extend_16(imm)) * 4)
}

/// Whether the emulator can decode the instruction.
pub open spec fn decodable(op: u32) -> bool {
    let p = primary_field(op);
    let f = secondary_field(op);
    let s = rs_field(op);
    let t = rt_field(op);
    if p == 0 {
        special_writes_register(f) || f == 0x08 || f == 0x09 || f == 0x0c || f == 0x11 || f
            == 0x13 || (0x18 <= f <= 0x1b) || f == 0x20 || f == 0x22
    } else if p == 1 {
        t == 0 || t == 1
    } else if p <= 0x0f {
        true
    } else if p == 0x10 || p == 0x12 {
        s == 0 || s == 2 || s == 4 || s == 6 || (s == 8 && (t == 0 || t == 1)) || s >= 0x10
    } else {
        p == 0x20 || p == 0x21 || p == 0x23 || p == 0x24 || p == 0x25 || p == 0x28 || p == 0x29
            || p == 0x2b
    }
}

/// The register values for which executing the instruction runs into no arithmetic
/// fault: no division by zero, no overflowing signed division, and for taken
/// single-register branches an offset whose quadruple fits in 16 bits.
pub open spec fn no_panic(op: u32, regs: Seq<u32>) -> bool {
    let p = primary_field(op);
    let f = secondary_field(op);
    let rs = gpr_of(regs, rs_field(op));
    let rt = gpr_of(regs, rt_field(op));
    let off = signed(sign_extend_16(imm16_field(op)));
    &&& p == 0 && f == 0x1b ==> rt != 0
    &&& p == 0 && f == 0x1a ==> rt != 0 && !(rs == 0x8000_0000 && rt == 0xffff_ffff)
    &&& (p == 1 || p == 6 || p == 7) && zero_branch_taken(op, rs) ==> -0x2000 <= off < 0x2000
}

/// The memory access of a load or store.
pub open spec fn access_spec(op: u32, regs: Seq<u32>, isolated: bool) -> MemAccess {
    let p = primary_field(op);
    let t = rt_field(op);
    let address = wrap32(gpr_of(regs, rs_field(op)) + sign_extend_16(imm16_field(op)));
    if p == 0x20 {
        MemAccess::Load { address, width: Width::Byte, signed: true, target: t }
    } else if p == 0x21 {
        MemAccess::Load { address, width: Width::Half, signed: true, target: t }
    } else if p == 0x23 {
        MemAccess::Load { address, width: Width::Word, signed: false, target: t }
    } else if p == 0x24 {
        MemAccess::Load { address, width: Width::Byte, signed: false, target: t }
    } else if p == 0x25 {
        MemAccess::Load { address, width: Width::Half, signed: false, target: t }
    } else if isolated {
        MemAccess::NoAccess
    } else {
        MemAccess::Store {
            address,
            width: if p == 0x28 {
                Width::Byte
            } else if p == 0x29 {
                Width::Half
            } else {
                Width::Word
            },
            value: gpr_of(regs, t),
        }
    }
}

/// The console after an exception of kind `kind` raised with the registers `regs`:
/// COP0 records it and the program counter holds the handler address.
pub open spec fn raised(
    kind: Cop0Exception,
    regs: Seq<u32>,
    cop0: Cop0,
    gte: GTE,
    post: Console,
) -> bool {
    &&& post.r3000@ == regs.update(32, cop0.exception_vector_spec())
    &&& post.cop0.epc() == regs[32]
    &&& post.cop0.cause() == Cop0::cause_after(cop0.cause(), kind)
    &&& post.cop0.sr() == Cop0::sr_after_exception(cop0.sr())
    &&& post.gte == gte
}

/// The console after an instruction that only writes registers.
pub open spec fn wrote(regs_after: Seq<u32>, cop0: Cop0, gte: GTE, post: Console) -> bool {
    &&& post.r3000@ == regs_after
    &&& post.cop0 == cop0
    &&& post.gte == gte
}

/// Executing instruction `op` with the registers `regs` (the delayed loads still
/// pending being `queue`) and coprocessors `cop0` and `gte` leads to the console
/// `post` and the result `r`.
pub open spec fn executes(
    op: u32,
    regs: Seq<u32>,
    queue: Seq<DelayedWrite>,
    cop0: Cop0,
    gte: GTE,
    post: Console,
    r: Executed,
) -> bool {
    let p = primary_field(op);
    if p == 0 {
        executes_special(op, regs, queue, cop0, gte, post, r)
    } else if p <= 0x07 {
        executes_branch(op, regs, queue, cop0, gte, post, r)
    } else if p <= 0x0f {
        executes_immediate(op, regs, queue, cop0, gte, post, r)
    } else if p == 0x10 || p == 0x12 {
        executes_cop(op, regs, queue, cop0, gte, post, r)
    } else {
        executes_load_store(op, regs, queue, cop0, gte, post, r)
    }
}

/// `executes` for the SPECIAL instructions (primary opcode 0).
pub open spec fn executes_special(
    op: u32,
    regs: Seq<u32>,
    queue: Seq<DelayedWrite>,
    cop0: Cop0,
    gte: GTE,
    post: Console,
    r: Executed,
) -> bool {
    let f = secondary_field(op);
    let s = rs_field(op);
    let t = rt_field(op);
    let d = rd_field(op);
    let rs = gpr_of(regs, s);
    let rt = gpr_of(regs, t);
    let pc = regs[32];
    let none = Executed { next_pc: None, access: MemAccess::NoAccess };
    &&& post.delayed_writes@ == queue
    &&& if special_writes_register(f) {
        &&& wrote(
            set_gpr(regs, d, special_spec(f, rs, rt, imm5_field(op), regs[33], regs[34])),
            cop0,
            gte,
            post,
        )
        &&& post.modified_register == modified_by(d)
        &&& r == none
    } else if f == 0x08 {
        &&& post.modified_register is None
        &&& if rs & 3 != 0 {
            raised(Cop0Exception::LoadAddress, regs, cop0, gte, post) && r == none
        } else {
            wrote(regs, cop0, gte, post) && r == Executed {
                next_pc: Some(rs),
                access: MemAccess::NoAccess,
            }
        }
    } else if f == 0x09 {
        let linked = set_gpr(regs, d, wrap32(pc + 4));
        let target = gpr_of(linked, s);
        &&& post.modified_register == modified_by(d)
        &&& if target & 3 != 0 {
            raised(Cop0Exception::LoadAddress, linked, cop0, gte, post) && r == none
        } else {
            wrote(linked, cop0, gte, post) && r == Executed {
                next_pc: Some(target),
                access: MemAccess::NoAccess,
            }
        }
    } else if f == 0x0c {
        raised(Cop0Exception::Syscall, regs, cop0, gte, post) && r == none
            && post.modified_register is None
    } else if f == 0x11 {
        wrote(regs.update(33, rs), cop0, gte, post) && r == none && post.modified_register is None
    } else if f == 0x13 {
        wrote(regs.update(34, rs), cop0, gte, post) && r == none && post.modified_register is None
    } else if 0x18 <= f <= 0x1b {
        let hl = hi_lo_spec(f, rs, rt);
        wrote(regs.update(33, hl.0).update(34, hl.1), cop0, gte, post) && r == none
            && post.modified_register is None
    } else {
        // ADD and SUB
        let v = if f == 0x20 {
            rs + rt
        } else {
            rs - rt
        };
        &&& r == none
        &&& if v < 0 || v > 0xffff_ffff {
            raised(Cop0Exception::Overflow, regs, cop0, gte, post)
                && post.modified_register is None
        } else {
            wrote(set_gpr(regs, d, v as u32), cop0, gte, post) && post.modified_register
                == modified_by(d)
        }
    }
}

/// `executes` for the jumps and branches (primary opcodes 1 to 7).
pub open spec fn executes_branch(
    op: u32,
    regs: Seq<u32>,
    queue: Seq<DelayedWrite>,
    cop0: Cop0,
    gte: GTE,
    post: Console,
    r: Executed,
) -> bool {
    let p = primary_field(op);
    let rs = gpr_of(regs, rs_field(op));
    let rt = gpr_of(regs, rt_field(op));
    let pc = regs[32];
    let imm = imm16_field(op);
    &&& post.delayed_writes@ == queue
    &&& if p == 0x02 || p == 0x03 {
        &&& wrote(
            if p == 0x03 {
                regs.update(31, wrap32(pc + 4))
            } else {
                regs
            },
            cop0,
            gte,
            post,
        )
        &&& post.modified_register == (if p == 0x03 {
            Some(Name::Rn(31))
        } else {
            None
        })
        &&& r == Executed {
            next_pc: Some(((pc & 0xf000_0000) + imm26_field(op) * 4) as u32),
            access: MemAccess::NoAccess,
        }
    } else {
        let taken = if p == 0x04 {
            rs == rt
        } else if p == 0x05 {
            rs != rt
        } else {
            zero_branch_taken(op, rs)
        };
        &&& wrote(regs, cop0, gte, post)
        &&& post.modified_register is None
        &&& r == Executed {
            next_pc: if taken {
                Some(branch_target(pc, imm))
            } else {
                None
            },
            access: MemAccess::NoAccess,
        }
    }
}

/// `executes` for the ALU instructions with an immediate (primary opcodes 8 to 15).
pub open spec fn executes_immediate(
    op: u32,
    regs: Seq<u32>,
    queue: Seq<DelayedWrite>,
    cop0: Cop0,
    gte: GTE,
    post: Console,
    r: Executed,
) -> bool {
    let p = primary_field(op);
    let t = rt_field(op);
    let rs = gpr_of(regs, rs_field(op));
    let imm = imm16_field(op);
    &&& post.delayed_writes@ == queue
    &&& r == Executed { next_pc: None, access: MemAccess::NoAccess }
    &&& if p == 0x08 {
        let v = signed(rs) + signed(sign_extend_16(imm));
        if v < i32::MIN || v > i32::MAX {
            raised(Cop0Exception::Overflow, regs, cop0, gte, post)
                && post.modified_register is None
        } else {
            wrote(set_gpr(regs, t, wrap32(v)), cop0, gte, post) && post.modified_register
                == modified_by(t)
        }
    } else {
        &&& wrote(set_gpr(regs, t, imm_spec(p, rs, imm)), cop0, gte, post)
        &&& post.modified_register == modified_by(t)
    }
}

/// `executes` for the coprocessor instructions (COP0 and COP2).
pub open spec fn executes_cop(
    op: u32,
    regs: Seq<u32>,
    queue: Seq<DelayedWrite>,
    cop0: Cop0,
    gte: GTE,
    post: Console,
    r: Executed,
) -> bool {
    let is_gte = primary_field(op) == 0x12;
    let s = rs_field(op);
    let t = rt_field(op);
    let d = rd_field(op);
    let rt = gpr_of(regs, t);
    let imm = imm16_field(op);
    let none = Executed { next_pc: None, access: MemAccess::NoAccess };
    &&& post.r3000@ == regs
    &&& post.modified_register is None
    &&& if s == 0x00 || s == 0x02 {
        let value = if s == 0x00 {
            if is_gte {
                gte.data()[d as int]
            } else {
                cop0.data_reg(d)
            }
        } else {
            if is_gte {
                gte.ctrl()[d as int]
            } else {
                0
            }
        };
        &&& post.delayed_writes@ == queue.push(DelayedWrite { register_name: Name::Rn(t), value })
        &&& post.cop0 == cop0
        &&& post.gte == gte
        &&& r == none
    } else if s == 0x04 || s == 0x06 {
        &&& post.delayed_writes@ == queue
        &&& r == none
        &&& if is_gte {
            &&& post.cop0 == cop0
            &&& post.gte.data() == (if s == 0x04 {
                gte.data().update(d as int, rt)
            } else {
                gte.data()
            })
            &&& post.gte.ctrl() == (if s == 0x06 {
                gte.ctrl().update(d as int, rt)
            } else {
                gte.ctrl()
            })
        } else {
            &&& post.gte == gte
            &&& if s == 0x04 {
                &&& post.cop0.sr() == (if d == 12 {
                    rt
                } else {
                    cop0.sr()
                })
                &&& post.cop0.cause() == (if d == 13 {
                    rt
                } else {
                    cop0.cause()
                })
                &&& post.cop0.epc() == (if d == 14 {
                    rt
                } else {
                    cop0.epc()
                })
            } else {
                post.cop0 == cop0
            }
        }
    } else if s == 0x08 {
        &&& post.delayed_writes@ == queue
        &&& post.cop0 == cop0
        &&& post.gte == gte
        &&& r == Executed {
            next_pc: if t == 0 && is_gte {
                Some(imm)
            } else {
                None
            },
            access: MemAccess::NoAccess,
        }
    } else {
        &&& post.delayed_writes@ == queue
        &&& post.gte == gte
        &&& r == none
        &&& if is_gte {
            post.cop0 == cop0
        } else {
            &&& post.cop0.sr() == (if imm25_field(op) == 0x10 {
                Cop0::sr_after_rfe(cop0.sr())
            } else {
                cop0.sr()
            })
            &&& post.cop0.cause() == cop0.cause()
            &&& post.cop0.epc() == cop0.epc()
        }
    }
}

/// `executes` for the loads and stores.
pub open spec fn executes_load_store(
    op: u32,
    regs: Seq<u32>,
    queue: Seq<DelayedWrite>,
    cop0: Cop0,
    gte: GTE,
    post: Console,
    r: Executed,
) -> bool {
    &&& post.delayed_writes@ == queue
    &&& wrote(regs, cop0, gte, post)
    &&& post.modified_register is None
    &&& r == Executed {
        next_pc: None,
        access: access_spec(op, regs, (cop0.sr() >> 16) & 1 == 1),
    }
}

} // verus!
