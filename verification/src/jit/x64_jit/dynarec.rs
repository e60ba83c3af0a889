//! The translation of MIPS instructions into the calls of the block recompiler.
//!
//! A `Recompiler` here records, in order, the calls that the recompiler that
//! assembles a block's machine code is to receive: values it creates (scratch
//! registers, delayed writes, labels), moves, ALU operations, compares, jumps on
//! flags, and calls through the block's table of pointers. The recompiler holds one
//! register for each CPU register that the block touches (by index in the register
//! file: 0 to 31, then 32 for PC, 33 for HI and 34 for LO); a register that it does
//! not hold reads as zero and takes no writes.
use vstd::prelude::*;
use crate::common::{
    primary_field, secondary_field, rs_field, rt_field, rd_field, imm5_field, imm16_field,
    imm26_field, get_primary_field, get_secondary_field, get_rs, get_rt, get_rd, get_imm5,
    get_imm16, get_imm26,
};
use crate::register::{sign_extend_16, signed, wrap32, half_sign_extended, to_signed};
use crate::interpreter::spec::branch_target;
use crate::interpreter::{jump_target, relative_target};
use super::block::NextOp;
use crate::jit::insn::Insn;

verus! {

/// Register file index of the return address register.
pub const RA: u32 = 31;

/// Register file index of the program counter.
pub const PC: u32 = 32;

/// Register file index of HI.
pub const HI: u32 = 33;

/// Register file index of LO.
pub const LO: u32 = 34;

/// Position in the block's pointer table of the CPU register file.
pub const R3000_REG_POS: usize = 0;

/// Position of the coprocessor 0 registers (R12 to R14).
pub const COP0_REG_POS: usize = 1;

/// Position of the console.
pub const CONSOLE_POS: usize = 2;

/// Position of the word writer.
pub const WRITE_WORD_POS: usize = 3;

/// Position of the half word writer.
pub const WRITE_HALF_POS: usize = 4;

/// Position of the byte writer.
pub const WRITE_BYTE_POS: usize = 5;

/// Position of the word reader.
pub const READ_WORD_POS: usize = 6;

/// Position of the half word reader.
pub const READ_HALF_POS: usize = 7;

/// Position of the byte reader.
pub const READ_BYTE_POS: usize = 8;

/// Position of the sign-extending half word reader.
pub const READ_HALF_SIGN_EXTENDED_POS: usize = 9;

/// Position of the sign-extending byte reader.
pub const READ_BYTE_SIGN_EXTENDED_POS: usize = 10;

/// Position of the exception generator.
pub const GEN_EXCEPTION: usize = 11;

/// Position of the value printer used when debugging blocks.
pub const DEBUG_POS: usize = 12;

/// The number by which the exception generator receives a system call: its place
/// among the exception kinds (interrupt, load address, store address, system call,
/// overflow).
pub const SYSCALL_KIND: u32 = 3;

/// A value the recompiler works on: the register that holds a CPU register, or the
/// n-th scratch value (register, pointer or delayed write) created for the block.
#[derive(Debug, Clone, Copy, PartialEq, Eq, Structural)]
pub enum Var {
    Cpu(u32),
    Temp(u32),
}

/// The n-th label created for the block.
#[derive(Debug, Clone, Copy, PartialEq, Eq, Structural)]
pub struct RecLabel(pub u32);

/// One call on the recompiler.
#[derive(Debug, Clone, Copy, PartialEq, Eq, Structural)]
pub enum RecOp {
    /// A new 32-bit scratch register, numbered.
    NewU32(u32),
    /// A new 64-bit scratch register, numbered.
    NewU64(u32),
    /// A new value whose write to `reg` takes effect after the next instruction.
    NewDelayedWrite { id: u32, reg: Var },
    /// A new label for a short jump, numbered.
    NewLabel(u32),
    /// A new label for a long jump, numbered.
    NewLongLabel(u32),
    SetV { dst: Var, src: Var },
    SetI { dst: Var, imm: u32 },
    SllI { dst: Var, shift: u32 },
    SrlI { dst: Var, shift: u32 },
    SraI { dst: Var, shift: u32 },
    AddV { dst: Var, src: Var },
    SubV { dst: Var, src: Var },
    AndV { dst: Var, src: Var },
    OrV { dst: Var, src: Var },
    AddI { dst: Var, imm: i32 },
    AndI { dst: Var, imm: u32 },
    OrI { dst: Var, imm: u32 },
    /// Signed division of `rs` by `rt`: quotient to `lo`, remainder to `hi`.
    DivV { rs: Var, rt: Var, lo: Var, hi: Var },
    /// Unsigned division of `rs` by `rt`: quotient to `lo`, remainder to `hi`.
    DivuV { rs: Var, rt: Var, lo: Var, hi: Var },
    CmpV { a: Var, b: Var },
    TestV { a: Var, b: Var },
    /// Copies bit `bit` of `v` into the carry flag.
    BtI { v: Var, bit: u32 },
    SetCarry,
    ClearCarry,
    SetZero,
    ClearSigned,
    SaveFlags,
    LoadFlags,
    Jump(RecLabel),
    JumpIfNotLess(RecLabel),
    JumpIfNotCarry(RecLabel),
    JumpIfZero(RecLabel),
    JumpIfNotZero(RecLabel),
    JumpIfSigned(RecLabel),
    JumpIfNotSigned(RecLabel),
    JumpIfCarry(RecLabel),
    DefineLabel(RecLabel),
    /// Loads the pointer at position `pos` of the pointer table.
    LoadPtr { dst: Var, pos: usize },
    /// Replaces the pointer `ptr` by the word at index `index` that it points to.
    IndexU32 { ptr: Var, index: i32 },
    /// Stores `src` at index `index` of the words `ptr` points to.
    IndexMutU32 { ptr: Var, src: Var, index: i32 },
    /// Replaces the pointer by the word it points to.
    DerefU32(Var),
    SetArg1(Var),
    SetArg2(Var),
    SetArg3(Var),
    ZeroArg3,
    SetRet(Var),
    /// Calls the function at position `pos` of the pointer table.
    CallPtr(usize),
    /// Calls the function at position `pos` of the pointer table and keeps its result.
    CallPtrWithRet(usize),
    /// An instruction that stops the program.
    IllegalInsn,
    ProcessDelayedWrite,
    PrepareForExit,
}

/// The scratch value numbered `nt + k`.
pub open spec fn tmp(nt: nat, k: nat) -> Var {
    Var::Temp((nt + k) as u32)
}

/// The label numbered `nl + k`.
pub open spec fn lbl(nl: nat, k: nat) -> RecLabel {
    RecLabel((nl + k) as u32)
}

/// Sets `dst` to CPU register `x`, or to zero when the recompiler does not hold it.
pub open spec fn set_or_zero(dst: Var, x: u32, held: Set<u32>) -> RecOp {
    if held.contains(x) {
        RecOp::SetV { dst, src: Var::Cpu(x) }
    } else {
        RecOp::SetI { dst, imm: 0 }
    }
}

/// The ops of a jump to a register: PC takes its value (or zero), and the carry
/// flag marks the jump as taken.
pub open spec fn jump_reg_plan(s: u32, held: Set<u32>) -> Seq<RecOp> {
    seq![set_or_zero(Var::Cpu(PC), s, held), RecOp::SetCarry]
}

/// The ops of a jump to `dest`.
pub open spec fn jump_imm_plan(dest: u32) -> Seq<RecOp> {
    seq![RecOp::SetI { dst: Var::Cpu(PC), imm: dest }, RecOp::SetCarry]
}

/// The ops of ADDI and ADDIU: the carry flag is cleared and `t` takes `s` plus the
/// sign-extended immediate.
pub open spec fn addi_plan(s: u32, t: u32, imm: u32, held: Set<u32>) -> Seq<RecOp> {
    let simm = sign_extend_16(imm);
    seq![RecOp::ClearCarry] + if !held.contains(t) {
        seq![]
    } else if t == s {
        seq![RecOp::AddI { dst: Var::Cpu(t), imm: signed(simm) as i32 }]
    } else {
        seq![RecOp::SetI { dst: Var::Cpu(t), imm: simm }] + if held.contains(s) {
            seq![RecOp::AddV { dst: Var::Cpu(t), src: Var::Cpu(s) }]
        } else {
            seq![]
        }
    }
}

/// The ops of BEQ (or BNE when `invert`) to `dest`, with labels from `nl` on.
pub open spec fn branch_equal_plan(s: u32, t: u32, dest: u32, invert: bool, held: Set<u32>, nl: nat) -> Seq<RecOp> {
    let take_jump = lbl(nl, 0);
    let next_op = lbl(nl, 1);
    let compare = if !held.contains(s) && !held.contains(t) {
        RecOp::SetZero
    } else if !held.contains(t) {
        RecOp::TestV { a: Var::Cpu(s), b: Var::Cpu(s) }
    } else if !held.contains(s) {
        RecOp::TestV { a: Var::Cpu(t), b: Var::Cpu(t) }
    } else {
        RecOp::CmpV { a: Var::Cpu(s), b: Var::Cpu(t) }
    };
    seq![
        RecOp::NewLabel(take_jump.0),
        RecOp::NewLabel(next_op.0),
        compare,
        if invert { RecOp::JumpIfNotZero(take_jump) } else { RecOp::JumpIfZero(take_jump) },
        RecOp::ClearCarry,
        RecOp::Jump(next_op),
        RecOp::DefineLabel(take_jump),
        RecOp::SetI { dst: Var::Cpu(PC), imm: dest },
        RecOp::SetCarry,
        RecOp::DefineLabel(next_op),
    ]
}

/// The test of `s` against zero that signed branches start with.
pub open spec fn sign_test(s: u32, held: Set<u32>) -> RecOp {
    if held.contains(s) {
        RecOp::TestV { a: Var::Cpu(s), b: Var::Cpu(s) }
    } else {
        RecOp::ClearSigned
    }
}

/// The ops of BGTZ (or BLEZ when `invert`) to `dest`, with labels from `nl` on.
pub open spec fn branch_gtz_plan(s: u32, dest: u32, invert: bool, held: Set<u32>, nl: nat) -> Seq<RecOp> {
    let skip_jump = lbl(nl, 0);
    let take_jump = lbl(nl, 1);
    let next_op = lbl(nl, 2);
    seq![
        RecOp::NewLabel(skip_jump.0),
        RecOp::NewLabel(take_jump.0),
        RecOp::NewLabel(next_op.0),
        sign_test(s, held),
    ] + (if invert {
        seq![RecOp::JumpIfZero(take_jump), RecOp::JumpIfSigned(take_jump), RecOp::Jump(skip_jump)]
    } else {
        seq![RecOp::JumpIfZero(skip_jump), RecOp::JumpIfSigned(skip_jump)]
    }) + seq![
        RecOp::DefineLabel(take_jump),
        RecOp::SetI { dst: Var::Cpu(PC), imm: dest },
        RecOp::SetCarry,
        RecOp::Jump(next_op),
        RecOp::DefineLabel(skip_jump),
        RecOp::ClearCarry,
        RecOp::DefineLabel(next_op),
    ]
}

/// The ops of BGEZ (or BLTZ when `invert`) to `dest`, with labels from `nl` on.
pub open spec fn branch_gez_plan(s: u32, dest: u32, invert: bool, held: Set<u32>, nl: nat) -> Seq<RecOp> {
    let skip_jump = lbl(nl, 0);
    let next_op = lbl(nl, 1);
    seq![
        RecOp::NewLabel(skip_jump.0),
        RecOp::NewLabel(next_op.0),
        sign_test(s, held),
        if invert { RecOp::JumpIfNotSigned(skip_jump) } else { RecOp::JumpIfSigned(skip_jump) },
        RecOp::SetI { dst: Var::Cpu(PC), imm: dest },
        RecOp::SetCarry,
        RecOp::Jump(next_op),
        RecOp::DefineLabel(skip_jump),
        RecOp::ClearCarry,
        RecOp::DefineLabel(next_op),
    ]
}

/// The shift by an immediate that secondary opcode `f` (0x00 SLL, 0x02 SRL, 0x03
/// SRA) names.
pub open spec fn shift_op(f: u32, dst: Var, shift: u32) -> RecOp {
    if f == 0x00 {
        RecOp::SllI { dst, shift }
    } else if f == 0x02 {
        RecOp::SrlI { dst, shift }
    } else {
        RecOp::SraI { dst, shift }
    }
}

/// The ops of SLL, SRL and SRA.
pub open spec fn shift_plan(f: u32, t: u32, d: u32, imm5: u32, held: Set<u32>) -> Seq<RecOp> {
    if !held.contains(d) {
        seq![]
    } else if held.contains(t) {
        seq![RecOp::SetV { dst: Var::Cpu(d), src: Var::Cpu(t) }, shift_op(f, Var::Cpu(d), imm5)]
    } else {
        seq![RecOp::SetI { dst: Var::Cpu(d), imm: 0 }]
    }
}

/// The ops of MFHI and MFLO (`special` is HI or LO).
pub open spec fn move_from_plan(special: u32, d: u32, held: Set<u32>) -> Seq<RecOp> {
    if held.contains(d) {
        seq![RecOp::SetV { dst: Var::Cpu(d), src: Var::Cpu(special) }]
    } else {
        seq![]
    }
}

/// The ops of DIV: a division by a register that is not held is left out.
pub open spec fn div_plan(s: u32, t: u32, held: Set<u32>) -> Seq<RecOp> {
    if !held.contains(s) && !held.contains(t) {
        seq![RecOp::SetI { dst: Var::Cpu(HI), imm: 0 }, RecOp::SetI { dst: Var::Cpu(LO), imm: 0xffff_ffff }]
    } else if !held.contains(s) {
        seq![RecOp::SetI { dst: Var::Cpu(HI), imm: 0 }, RecOp::SetI { dst: Var::Cpu(LO), imm: 0 }]
    } else {
        seq![RecOp::DivV { rs: Var::Cpu(s), rt: Var::Cpu(t), lo: Var::Cpu(LO), hi: Var::Cpu(HI) }]
    }
}

/// The ops of DIVU.
pub open spec fn divu_plan(s: u32, t: u32, held: Set<u32>) -> Seq<RecOp> {
    if !held.contains(s) {
        seq![RecOp::SetI { dst: Var::Cpu(HI), imm: 0 }, RecOp::SetI { dst: Var::Cpu(LO), imm: 0 }]
    } else if !held.contains(t) {
        seq![RecOp::SetV { dst: Var::Cpu(HI), src: Var::Cpu(s) }, RecOp::SetI { dst: Var::Cpu(LO), imm: 0 }]
    } else {
        seq![RecOp::DivuV { rs: Var::Cpu(s), rt: Var::Cpu(t), lo: Var::Cpu(LO), hi: Var::Cpu(HI) }]
    }
}

/// The ops of ADD and ADDU (`or` false) and OR (`or` true): `d` takes the sum (or
/// the bitwise or) of `s` and `t`, a register that is not held counting as zero.
pub open spec fn combine_plan(s: u32, t: u32, d: u32, or: bool, held: Set<u32>) -> Seq<RecOp> {
    if !held.contains(d) {
        seq![]
    } else if !held.contains(s) && !held.contains(t) {
        seq![RecOp::SetI { dst: Var::Cpu(d), imm: 0 }]
    } else if !held.contains(s) {
        seq![RecOp::SetV { dst: Var::Cpu(d), src: Var::Cpu(t) }]
    } else if !held.contains(t) {
        seq![RecOp::SetV { dst: Var::Cpu(d), src: Var::Cpu(s) }]
    } else {
        seq![
            RecOp::SetV { dst: Var::Cpu(d), src: Var::Cpu(s) },
            if or { RecOp::OrV { dst: Var::Cpu(d), src: Var::Cpu(t) } } else { RecOp::AddV { dst: Var::Cpu(d), src: Var::Cpu(t) } },
        ]
    }
}

/// The ops of SUBU.
pub open spec fn subu_plan(s: u32, t: u32, d: u32, held: Set<u32>) -> Seq<RecOp> {
    if !held.contains(d) {
        seq![]
    } else {
        seq![set_or_zero(Var::Cpu(d), s, held)] + if held.contains(t) {
            seq![RecOp::SubV { dst: Var::Cpu(d), src: Var::Cpu(t) }]
        } else {
            seq![]
        }
    }
}

/// The ops of AND.
pub open spec fn and_plan(s: u32, t: u32, d: u32, held: Set<u32>) -> Seq<RecOp> {
    if !held.contains(d) {
        seq![]
    } else if held.contains(s) && held.contains(t) {
        seq![RecOp::SetV { dst: Var::Cpu(d), src: Var::Cpu(s) }, RecOp::AndV { dst: Var::Cpu(d), src: Var::Cpu(t) }]
    } else {
        seq![RecOp::SetI { dst: Var::Cpu(d), imm: 0 }]
    }
}

/// The jump taken when a compare finds its first operand not below the second:
/// signed for SLT and SLTI, unsigned (no carry) for SLTU and SLTIU.
pub open spec fn not_below(unsigned: bool, to: RecLabel) -> RecOp {
    if unsigned {
        RecOp::JumpIfNotCarry(to)
    } else {
        RecOp::JumpIfNotLess(to)
    }
}

/// The tail of a set-on-less-than: `dst` becomes 1 unless the jump to `skip_set` was
/// taken, in which case it becomes 0.
pub open spec fn set_flag_tail(dst: Var, skip_set: RecLabel, end: RecLabel) -> Seq<RecOp> {
    seq![
        RecOp::SetI { dst, imm: 1 },
        RecOp::Jump(end),
        RecOp::DefineLabel(skip_set),
        RecOp::SetI { dst, imm: 0 },
        RecOp::DefineLabel(end),
    ]
}

/// The ops of SLT (SLTU when `unsigned`), with scratch values from `nt` and labels
/// from `nl` on.
pub open spec fn set_less_plan(s: u32, t: u32, d: u32, unsigned: bool, held: Set<u32>, nt: nat, nl: nat) -> Seq<RecOp> {
    let skip_set = lbl(nl, 0);
    let end = lbl(nl, 1);
    let zero = tmp(nt, 0);
    if !held.contains(d) {
        seq![]
    } else {
        seq![
            RecOp::NewLabel(skip_set.0),
            RecOp::NewLabel(end.0),
            RecOp::NewU32((nt + 0) as u32),
            RecOp::SetI { dst: zero, imm: 0 },
        ] + (if !held.contains(t) && !held.contains(s) {
            seq![RecOp::Jump(skip_set)]
        } else if !held.contains(s) {
            seq![RecOp::CmpV { a: Var::Cpu(t), b: zero }, not_below(unsigned, skip_set)]
        } else if !held.contains(t) {
            seq![RecOp::CmpV { a: zero, b: Var::Cpu(s) }, not_below(unsigned, skip_set)]
        } else {
            seq![RecOp::CmpV { a: Var::Cpu(t), b: Var::Cpu(s) }, not_below(unsigned, skip_set)]
        }) + set_flag_tail(Var::Cpu(d), skip_set, end)
    }
}

/// The ops of SLTI (SLTIU when `unsigned`).
pub open spec fn set_less_imm_plan(s: u32, t: u32, imm: u32, unsigned: bool, held: Set<u32>, nt: nat, nl: nat) -> Seq<RecOp> {
    let skip_set = lbl(nl, 0);
    let end = lbl(nl, 1);
    let zero = tmp(nt, 0);
    let temp = tmp(nt, 1);
    if !held.contains(t) {
        seq![]
    } else {
        seq![
            RecOp::NewLabel(skip_set.0),
            RecOp::NewLabel(end.0),
            RecOp::NewU32((nt + 0) as u32),
            RecOp::NewU32((nt + 1) as u32),
            RecOp::SetI { dst: zero, imm: 0 },
            RecOp::SetI { dst: temp, imm: sign_extend_16(imm) },
            if held.contains(s) { RecOp::CmpV { a: temp, b: Var::Cpu(s) } } else { RecOp::CmpV { a: temp, b: zero } },
            not_below(unsigned, skip_set),
        ] + set_flag_tail(Var::Cpu(t), skip_set, end)
    }
}

/// The ops of ANDI.
pub open spec fn andi_plan(s: u32, t: u32, imm: u32, held: Set<u32>) -> Seq<RecOp> {
    if !held.contains(t) {
        seq![]
    } else if held.contains(s) {
        seq![RecOp::SetV { dst: Var::Cpu(t), src: Var::Cpu(s) }, RecOp::AndI { dst: Var::Cpu(t), imm }]
    } else {
        seq![RecOp::SetI { dst: Var::Cpu(t), imm: 0 }]
    }
}

/// The ops of ORI.
pub open spec fn ori_plan(s: u32, t: u32, imm: u32, held: Set<u32>) -> Seq<RecOp> {
    if !held.contains(t) {
        seq![]
    } else if s == t {
        seq![RecOp::OrI { dst: Var::Cpu(t), imm }]
    } else {
        seq![RecOp::SetI { dst: Var::Cpu(t), imm }] + if held.contains(s) {
            seq![RecOp::OrV { dst: Var::Cpu(t), src: Var::Cpu(s) }]
        } else {
            seq![]
        }
    }
}

/// Whether a coprocessor 0 register is one the console keeps (R12, R13, R14).
pub open spec fn kept_cop0(d: u32) -> bool {
    d == 12 || d == 13 || d == 14
}

/// The ops of MFC0: a delayed write of the coprocessor register to `t`.
pub open spec fn mfc0_plan(t: u32, d: u32, held: Set<u32>, nt: nat) -> Seq<RecOp> {
    if kept_cop0(d) && held.contains(t) {
        seq![
            RecOp::NewDelayedWrite { id: (nt + 0) as u32, reg: Var::Cpu(t) },
            RecOp::NewU64((nt + 1) as u32),
            RecOp::LoadPtr { dst: tmp(nt, 1), pos: COP0_REG_POS },
            RecOp::IndexU32 { ptr: tmp(nt, 1), index: (d - 12) as i32 },
            RecOp::SetV { dst: tmp(nt, 0), src: tmp(nt, 1) },
        ]
    } else {
        seq![]
    }
}

/// The ops of MTC0.
pub open spec fn mtc0_plan(t: u32, d: u32, held: Set<u32>, nt: nat) -> Seq<RecOp> {
    if kept_cop0(d) {
        seq![
            RecOp::NewU32((nt + 0) as u32),
            RecOp::SetI { dst: tmp(nt, 0), imm: 0 },
            RecOp::NewU64((nt + 1) as u32),
            RecOp::LoadPtr { dst: tmp(nt, 1), pos: COP0_REG_POS },
            RecOp::IndexMutU32 {
                ptr: tmp(nt, 1),
                src: if held.contains(t) { Var::Cpu(t) } else { tmp(nt, 0) },
                index: (d - 12) as i32,
            },
        ]
    } else {
        seq![]
    }
}

/// The ops of SYSCALL: the exception generator is called with the console, the
/// system call kind and the address `pc`, and its result goes to PC.
pub open spec fn syscall_plan(pc: u32, nt: nat) -> Seq<RecOp> {
    seq![
        RecOp::NewU32((nt + 0) as u32),
        RecOp::NewU32((nt + 1) as u32),
        RecOp::NewU64((nt + 2) as u32),
        RecOp::LoadPtr { dst: tmp(nt, 2), pos: CONSOLE_POS },
        RecOp::SetI { dst: tmp(nt, 0), imm: pc },
        RecOp::SetI { dst: tmp(nt, 1), imm: SYSCALL_KIND },
        RecOp::SetArg1(tmp(nt, 2)),
        RecOp::SetArg2(tmp(nt, 1)),
        RecOp::SetArg3(tmp(nt, 0)),
        RecOp::SetRet(Var::Cpu(PC)),
        RecOp::CallPtr(GEN_EXCEPTION),
    ]
}

/// The ops of a load through the reader at `pos`: the address `s` plus the offset
/// goes to the reader with the console, and its result is a delayed write to `t`.
pub open spec fn load_plan(s: u32, t: u32, imm: u32, pos: usize, held: Set<u32>, nt: nat, nl: nat) -> Seq<RecOp> {
    if !held.contains(t) {
        seq![]
    } else {
        seq![
            RecOp::NewLabel(lbl(nl, 0).0),
            RecOp::NewU64((nt + 0) as u32),
            RecOp::NewU32((nt + 1) as u32),
            RecOp::LoadPtr { dst: tmp(nt, 0), pos: CONSOLE_POS },
            set_or_zero(tmp(nt, 1), s, held),
            RecOp::AddI { dst: tmp(nt, 1), imm: signed(sign_extend_16(imm)) as i32 },
            RecOp::SetArg1(tmp(nt, 0)),
            RecOp::SetArg2(tmp(nt, 1)),
            RecOp::NewDelayedWrite { id: (nt + 2) as u32, reg: Var::Cpu(t) },
            RecOp::SetRet(tmp(nt, 2)),
            RecOp::CallPtrWithRet(pos),
            RecOp::DefineLabel(lbl(nl, 0)),
        ]
    }
}

/// The ops of a store through the writer at `pos`, skipped while the cache is
/// isolated (bit 16 of coprocessor register R12).
pub open spec fn store_plan(s: u32, t: u32, imm: u32, pos: usize, held: Set<u32>, nt: nat, nl: nat) -> Seq<RecOp> {
    seq![
        RecOp::NewU32((nt + 0) as u32),
        RecOp::NewLabel(lbl(nl, 0).0),
        RecOp::NewU64((nt + 1) as u32),
        RecOp::NewU32((nt + 2) as u32),
        RecOp::LoadPtr { dst: tmp(nt, 1), pos: CONSOLE_POS },
        set_or_zero(tmp(nt, 2), s, held),
        RecOp::AddI { dst: tmp(nt, 2), imm: signed(sign_extend_16(imm)) as i32 },
        RecOp::SetArg1(tmp(nt, 1)),
        RecOp::SetArg2(tmp(nt, 2)),
        if held.contains(t) { RecOp::SetArg3(Var::Cpu(t)) } else { RecOp::ZeroArg3 },
        RecOp::LoadPtr { dst: tmp(nt, 0), pos: COP0_REG_POS },
        RecOp::DerefU32(tmp(nt, 0)),
        RecOp::BtI { v: tmp(nt, 0), bit: 16 },
        RecOp::JumpIfCarry(lbl(nl, 0)),
        RecOp::CallPtr(pos),
        RecOp::DefineLabel(lbl(nl, 0)),
    ]
}

/// The reader that load opcode `p` uses.
pub open spec fn load_pos(p: u32) -> usize {
    if p == 0x20 {
        READ_BYTE_SIGN_EXTENDED_POS
    } else if p == 0x21 {
        READ_HALF_SIGN_EXTENDED_POS
    } else if p == 0x23 {
        READ_WORD_POS
    } else if p == 0x24 {
        READ_BYTE_POS
    } else {
        READ_HALF_POS
    }
}

/// The writer that store opcode `p` uses.
pub open spec fn store_pos(p: u32) -> usize {
    if p == 0x28 {
        WRITE_BYTE_POS
    } else if p == 0x29 {
        WRITE_HALF_POS
    } else {
        WRITE_WORD_POS
    }
}

/// Whether the recompiler translates `op` when it holds `held`: the opcodes it
/// knows, with PC held for jumps, branches and SYSCALL, the return address for JAL
/// and JALR, HI and LO for the instructions that use them, and no signed division
/// of a held register by one that is not held.
pub open spec fn recompilable(op: u32, held: Set<u32>) -> bool {
    let p = primary_field(op);
    let f = secondary_field(op);
    let s = rs_field(op);
    let t = rt_field(op);
    if p == 0 {
        if f == 0x00 || f == 0x02 || f == 0x03 || f == 0x0d || f == 0x20 || f == 0x21 || f == 0x23
            || f == 0x24 || f == 0x25 || f == 0x2a || f == 0x2b {
            true
        } else if f == 0x08 || f == 0x0c {
            held.contains(PC)
        } else if f == 0x09 {
            held.contains(RA) && held.contains(PC)
        } else if f == 0x10 || f == 0x11 {
            held.contains(HI)
        } else if f == 0x12 || f == 0x13 {
            held.contains(LO)
        } else if f == 0x1a {
            held.contains(HI) && held.contains(LO) && !(held.contains(s) && !held.contains(t))
        } else if f == 0x1b {
            held.contains(HI) && held.contains(LO)
        } else {
            false
        }
    } else if p == 0x01 {
        (t == 0 || t == 1) && held.contains(PC)
    } else if p == 0x02 || p == 0x04 || p == 0x05 || p == 0x06 || p == 0x07 {
        held.contains(PC)
    } else if p == 0x03 {
        held.contains(RA) && held.contains(PC)
    } else if p == 0x08 || p == 0x09 || p == 0x0a || p == 0x0b || p == 0x0c || p == 0x0d || p == 0x0f {
        true
    } else if p == 0x10 {
        s == 0 || s == 4
    } else {
        p == 0x20 || p == 0x21 || p == 0x23 || p == 0x24 || p == 0x25 || p == 0x28 || p == 0x29 || p == 0x2b
    }
}

/// What the recompiler receives for instruction `op`, which the block reaches with
/// PC at `pc` (the address after the instruction), with scratch values numbered
/// from `nt` and labels from `nl`: the calls, how the block goes on, and how many
/// scratch values and labels the calls create.
pub open spec fn insn_plan(op: u32, pc: u32, held: Set<u32>, nt: nat, nl: nat) -> (Seq<RecOp>, NextOp, nat, nat) {
    let p = primary_field(op);
    let f = secondary_field(op);
    let s = rs_field(op);
    let t = rt_field(op);
    let d = rd_field(op);
    let imm = imm16_field(op);
    let ret = wrap32(pc + 4);
    if p == 0 {
        if f == 0x00 || f == 0x02 || f == 0x03 {
            (shift_plan(f, t, d, imm5_field(op), held), NextOp::Standard, 0, 0)
        } else if f == 0x08 {
            (jump_reg_plan(s, held), NextOp::DelaySlot, 0, 0)
        } else if f == 0x09 {
            (seq![RecOp::SetI { dst: Var::Cpu(RA), imm: ret }] + jump_reg_plan(s, held), NextOp::DelaySlot, 0, 0)
        } else if f == 0x0c {
            (syscall_plan(pc, nt), NextOp::Exit, 3, 0)
        } else if f == 0x0d {
            (seq![RecOp::IllegalInsn], NextOp::Standard, 0, 0)
        } else if f == 0x10 {
            (move_from_plan(HI, d, held), NextOp::Standard, 0, 0)
        } else if f == 0x11 {
            (seq![set_or_zero(Var::Cpu(HI), s, held)], NextOp::Standard, 0, 0)
        } else if f == 0x12 {
            (move_from_plan(LO, d, held), NextOp::Standard, 0, 0)
        } else if f == 0x13 {
            (seq![set_or_zero(Var::Cpu(LO), s, held)], NextOp::Standard, 0, 0)
        } else if f == 0x1a {
            (div_plan(s, t, held), NextOp::Standard, 0, 0)
        } else if f == 0x1b {
            (divu_plan(s, t, held), NextOp::Standard, 0, 0)
        } else if f == 0x20 || f == 0x21 || f == 0x25 {
            (combine_plan(s, t, d, f == 0x25, held), NextOp::Standard, 0, 0)
        } else if f == 0x23 {
            (subu_plan(s, t, d, held), NextOp::Standard, 0, 0)
        } else if f == 0x24 {
            (and_plan(s, t, d, held), NextOp::Standard, 0, 0)
        } else {
            let n: nat = if held.contains(d) { 1 } else { 0 };
            (set_less_plan(s, t, d, f == 0x2b, held, nt, nl), NextOp::Standard, n, 2 * n)
        }
    } else if p == 0x01 {
        (branch_gez_plan(s, branch_target(pc, imm), t == 0, held, nl), NextOp::Standard, 0, 2)
    } else if p == 0x02 {
        (jump_imm_plan(((pc & 0xf000_0000) + imm26_field(op) * 4) as u32), NextOp::DelaySlot, 0, 0)
    } else if p == 0x03 {
        (
            seq![RecOp::SetI { dst: Var::Cpu(RA), imm: ret }] + jump_imm_plan(
                ((pc & 0xf000_0000) + imm26_field(op) * 4) as u32,
            ),
            NextOp::DelaySlot,
            0,
            0,
        )
    } else if p == 0x04 || p == 0x05 {
        (branch_equal_plan(s, t, branch_target(pc, imm), p == 0x05, held, nl), NextOp::DelaySlot, 0, 2)
    } else if p == 0x06 || p == 0x07 {
        (branch_gtz_plan(s, branch_target(pc, imm), p == 0x06, held, nl), NextOp::DelaySlot, 0, 3)
    } else if p == 0x08 || p == 0x09 {
        (addi_plan(s, t, imm, held), NextOp::Standard, 0, 0)
    } else if p == 0x0a || p == 0x0b {
        let n: nat = if held.contains(t) { 1 } else { 0 };
        (set_less_imm_plan(s, t, imm, p == 0x0b, held, nt, nl), NextOp::Standard, 2 * n, 2 * n)
    } else if p == 0x0c {
        (andi_plan(s, t, imm, held), NextOp::Standard, 0, 0)
    } else if p == 0x0d {
        (ori_plan(s, t, imm, held), NextOp::Standard, 0, 0)
    } else if p == 0x0f {
        (
            if held.contains(t) { seq![RecOp::SetI { dst: Var::Cpu(t), imm: (imm * 0x1_0000) as u32 }] } else { seq![] },
            NextOp::Standard,
            0,
            0,
        )
    } else if p == 0x10 {
        if s == 0 {
            (mfc0_plan(t, d, held, nt), NextOp::Standard, if kept_cop0(d) && held.contains(t) { 2 } else { 0 }, 0)
        } else {
            (mtc0_plan(t, d, held, nt), NextOp::Standard, if kept_cop0(d) { 2 } else { 0 }, 0)
        }
    } else if p == 0x28 || p == 0x29 || p == 0x2b {
        (store_plan(s, t, imm, store_pos(p), held, nt, nl), NextOp::Standard, 3, 1)
    } else {
        let n: nat = if held.contains(t) { 1 } else { 0 };
        (load_plan(s, t, imm, load_pos(p), held, nt, nl), NextOp::Standard, 3 * n, n)
    }
}

/// Whether `x` is among `held`.
fn holds(held: &Vec<u32>, x: u32) -> (r: bool)
    ensures
        r == held@.to_set().contains(x),
{
    let mut i: usize = 0;
    while i < held.len()
        invariant
            i <= held@.len(),
            forall|k: int| 0 <= k < i ==> held@[k] != x,
        decreases held@.len() - i,
    {
        if held[i] == x {
            assert(held@.to_set().contains(held@[i as int]));
            return true;
        }
        i = i + 1;
    }
    proof {
        if held@.to_set().contains(x) {
            let k = choose|k: int| 0 <= k < held@.len() && held@[k] == x;
            assert(held@[k] != x);
        }
    }
    false
}

/// Whether the recompiler translates `op` when it holds the registers `held` (see
/// `recompilable`).
pub fn is_recompilable(op: u32, held: &Vec<u32>) -> (r: bool)
    ensures
        r == recompilable(op, held@.to_set()),
{
    let p = get_primary_field(op);
    let f = get_secondary_field(op);
    let s = get_rs(op);
    let t = get_rt(op);
    let pc = holds(held, PC);
    if p == 0 {
        if f == 0x00 || f == 0x02 || f == 0x03 || f == 0x0d || f == 0x20 || f == 0x21 || f == 0x23
            || f == 0x24 || f == 0x25 || f == 0x2a || f == 0x2b {
            true
        } else if f == 0x08 || f == 0x0c {
            pc
        } else if f == 0x09 {
            holds(held, RA) && pc
        } else if f == 0x10 || f == 0x11 {
            holds(held, HI)
        } else if f == 0x12 || f == 0x13 {
            holds(held, LO)
        } else if f == 0x1a {
            holds(held, HI) && holds(held, LO) && !(holds(held, s) && !holds(held, t))
        } else if f == 0x1b {
            holds(held, HI) && holds(held, LO)
        } else {
            false
        }
    } else if p == 0x01 {
        (t == 0 || t == 1) && pc
    } else if p == 0x02 || p == 0x04 || p == 0x05 || p == 0x06 || p == 0x07 {
        pc
    } else if p == 0x03 {
        holds(held, RA) && pc
    } else if p == 0x08 || p == 0x09 || p == 0x0a || p == 0x0b || p == 0x0c || p == 0x0d || p == 0x0f {
        true
    } else if p == 0x10 {
        s == 0 || s == 4
    } else {
        p == 0x20 || p == 0x21 || p == 0x23 || p == 0x24 || p == 0x25 || p == 0x28 || p == 0x29 || p == 0x2b
    }
}

/// Whether `v` is a CPU register or a scratch value that `temp_ok` accepts.
pub open spec fn var_ok(v: Var, temp_ok: spec_fn(u32) -> bool) -> bool {
    match v {
        Var::Cpu(_) => true,
        Var::Temp(n) => temp_ok(n),
    }
}

/// Whether every scratch value `op` uses is accepted by `temp_ok` and every label
/// it uses by `label_ok` (creating one is not using it).
pub open spec fn refs_ok(op: RecOp, temp_ok: spec_fn(u32) -> bool, label_ok: spec_fn(u32) -> bool) -> bool {
    match op {
        RecOp::NewDelayedWrite { id: _, reg } => var_ok(reg, temp_ok),
        RecOp::SetV { dst, src } => var_ok(dst, temp_ok) && var_ok(src, temp_ok),
        RecOp::SetI { dst, imm: _ } => var_ok(dst, temp_ok),
        RecOp::SllI { dst, shift: _ } => var_ok(dst, temp_ok),
        RecOp::SrlI { dst, shift: _ } => var_ok(dst, temp_ok),
        RecOp::SraI { dst, shift: _ } => var_ok(dst, temp_ok),
        RecOp::AddV { dst, src } => var_ok(dst, temp_ok) && var_ok(src, temp_ok),
        RecOp::SubV { dst, src } => var_ok(dst, temp_ok) && var_ok(src, temp_ok),
        RecOp::AndV { dst, src } => var_ok(dst, temp_ok) && var_ok(src, temp_ok),
        RecOp::OrV { dst, src } => var_ok(dst, temp_ok) && var_ok(src, temp_ok),
        RecOp::AddI { dst, imm: _ } => var_ok(dst, temp_ok),
        RecOp::AndI { dst, imm: _ } => var_ok(dst, temp_ok),
        RecOp::OrI { dst, imm: _ } => var_ok(dst, temp_ok),
        RecOp::DivV { rs, rt, lo, hi } => var_ok(rs, temp_ok) && var_ok(rt, temp_ok) && var_ok(lo, temp_ok)
            && var_ok(hi, temp_ok),
        RecOp::DivuV { rs, rt, lo, hi } => var_ok(rs, temp_ok) && var_ok(rt, temp_ok) && var_ok(lo, temp_ok)
            && var_ok(hi, temp_ok),
        RecOp::CmpV { a, b } => var_ok(a, temp_ok) && var_ok(b, temp_ok),
        RecOp::TestV { a, b } => var_ok(a, temp_ok) && var_ok(b, temp_ok),
        RecOp::BtI { v, bit: _ } => var_ok(v, temp_ok),
        RecOp::Jump(l) => label_ok(l.0),
        RecOp::JumpIfNotLess(l) => label_ok(l.0),
        RecOp::JumpIfNotCarry(l) => label_ok(l.0),
        RecOp::JumpIfZero(l) => label_ok(l.0),
        RecOp::JumpIfNotZero(l) => label_ok(l.0),
        RecOp::JumpIfSigned(l) => label_ok(l.0),
        RecOp::JumpIfNotSigned(l) => label_ok(l.0),
        RecOp::JumpIfCarry(l) => label_ok(l.0),
        RecOp::DefineLabel(l) => label_ok(l.0),
        RecOp::LoadPtr { dst, pos: _ } => var_ok(dst, temp_ok),
        RecOp::IndexU32 { ptr, index: _ } => var_ok(ptr, temp_ok),
        RecOp::IndexMutU32 { ptr, src, index: _ } => var_ok(ptr, temp_ok) && var_ok(src, temp_ok),
        RecOp::DerefU32(v) => var_ok(v, temp_ok),
        RecOp::SetArg1(v) => var_ok(v, temp_ok),
        RecOp::SetArg2(v) => var_ok(v, temp_ok),
        RecOp::SetArg3(v) => var_ok(v, temp_ok),
        RecOp::SetRet(v) => var_ok(v, temp_ok),
        _ => true,
    }
}

/// Whether `op` creates scratch value `n`.
pub open spec fn creates_temp(op: RecOp, n: u32) -> bool {
    op == RecOp::NewU32(n) || op == RecOp::NewU64(n) || (op matches RecOp::NewDelayedWrite { id, reg: _ } && id == n)
}

/// Whether `op` creates label `n`.
pub open spec fn creates_label(op: RecOp, n: u32) -> bool {
    op == RecOp::NewLabel(n) || op == RecOp::NewLongLabel(n)
}

/// Whether one of `ops` creates scratch value `n`.
pub open spec fn temp_created(ops: Seq<RecOp>, n: u32) -> bool {
    exists|j: int| 0 <= j < ops.len() && #[trigger] creates_temp(ops[j], n)
}

/// Whether one of `ops` creates label `n`.
pub open spec fn label_created(ops: Seq<RecOp>, n: u32) -> bool {
    exists|j: int| 0 <= j < ops.len() && #[trigger] creates_label(ops[j], n)
}

/// Whether each of `ops` uses only scratch values and labels that calls before it
/// created.
pub open spec fn well_scoped(ops: Seq<RecOp>) -> bool {
    forall|i: int|
        0 <= i < ops.len() ==> refs_ok(
            #[trigger] ops[i],
            |n: u32| temp_created(ops.take(i), n),
            |n: u32| label_created(ops.take(i), n),
        )
}

/// `refs_ok` holds for looser acceptance.
proof fn lemma_refs_ok_weaken(
    op: RecOp,
    t1: spec_fn(u32) -> bool,
    l1: spec_fn(u32) -> bool,
    t2: spec_fn(u32) -> bool,
    l2: spec_fn(u32) -> bool,
)
    requires
        refs_ok(op, t1, l1),
        forall|n: u32| #[trigger] t1(n) ==> t2(n),
        forall|n: u32| #[trigger] l1(n) ==> l2(n),
    ensures
        refs_ok(op, t2, l2),
{
}

/// The calls of a block translation, recorded in order, with the CPU registers the
/// recompiler holds and the numbers of the scratch values and labels created so far.
pub struct Recompiler {
    held: Vec<u32>,
    ops: Vec<RecOp>,
    next_temp: u32,
    next_label: u32,
}

impl Recompiler {
    /// The CPU registers the recompiler holds.
    pub closed spec fn held_spec(&self) -> Set<u32> {
        self.held@.to_set()
    }

    /// The calls recorded so far.
    pub closed spec fn ops_spec(&self) -> Seq<RecOp> {
        self.ops@
    }

    /// How many scratch values were created.
    pub closed spec fn temps(&self) -> nat {
        self.next_temp as nat
    }

    /// How many labels were created.
    pub closed spec fn labels(&self) -> nat {
        self.next_label as nat
    }

    /// Every scratch value and label counted was created by a recorded call, and
    /// the recorded calls are well scoped.
    pub closed spec fn wf(&self) -> bool {
        &&& forall|n: u32| n < self.next_temp ==> temp_created(self.ops@, n)
        &&& forall|n: u32| n < self.next_label ==> label_created(self.ops@, n)
        &&& well_scoped(self.ops@)
    }

    /// The calls a recompiler records use only scratch values and labels created
    /// by calls before them.
    pub proof fn lemma_recorded_calls_are_scoped(&self)
        requires
            self.wf(),
        ensures
            well_scoped(self.ops_spec()),
    {
    }

    /// Room for the values and labels of one more instruction.
    pub open spec fn has_room(&self) -> bool {
        &&& self.temps() < 0xf000_0000
        &&& self.labels() < 0xf000_0000
    }

    /// A recompiler that holds the CPU registers `held`, with nothing recorded.
    pub fn new(held: Vec<u32>) -> (r: Self)
        ensures
            r.held_spec() == held@.to_set(),
            r.ops_spec() == Seq::<RecOp>::empty(),
            r.temps() == 0,
            r.labels() == 0,
            r.wf(),
    {
        Recompiler { held, ops: Vec::new(), next_temp: 0, next_label: 0 }
    }

    /// The CPU registers the recompiler holds.
    pub fn held(&self) -> (r: &Vec<u32>)
        ensures
            r@.to_set() == self.held_spec(),
    {
        &self.held
    }

    /// The calls recorded so far.
    pub fn ops(&self) -> (r: &Vec<RecOp>)
        ensures
            r@ == self.ops_spec(),
    {
        &self.ops
    }

    /// The register that holds CPU register `x`, if the recompiler holds it.
    pub fn reg(&self, x: u32) -> (r: Option<Var>)
        ensures
            r == (if self.held_spec().contains(x) { Some(Var::Cpu(x)) } else { None }),
    {
        let mut i: usize = 0;
        while i < self.held.len()
            invariant
                i <= self.held@.len(),
                forall|k: int| 0 <= k < i ==> self.held@[k] != x,
            decreases self.held@.len() - i,
        {
            if self.held[i] == x {
                proof {
                    assert(self.held@.to_set().contains(self.held@[i as int]));
                }
                return Some(Var::Cpu(x));
            }
            i = i + 1;
        }
        proof {
            if self.held@.to_set().contains(x) {
                let k = choose|k: int| 0 <= k < self.held@.len() && self.held@[k] == x;
                assert(self.held@[k] != x);
            }
        }
        None
    }

    /// Records one call.
    pub(crate) fn record(&mut self, op: RecOp)
        requires
            old(self).wf(),
            refs_ok(op, |n: u32| n < old(self).temps(), |n: u32| n < old(self).labels()),
        ensures
            final(self).ops_spec() == old(self).ops_spec().push(op),
            final(self).held_spec() == old(self).held_spec(),
            final(self).temps() == old(self).temps(),
            final(self).labels() == old(self).labels(),
            final(self).wf(),
    {
        let ghost ops0 = self.ops@;
        self.ops.push(op);
        proof {
            let ops1 = self.ops@;
            assert forall|n: u32| temp_created(ops0, n) implies temp_created(ops1, n) by {
                let j = choose|j: int| 0 <= j < ops0.len() && #[trigger] creates_temp(ops0[j], n);
                assert(ops1[j] == ops0[j]);
            }
            assert forall|n: u32| label_created(ops0, n) implies label_created(ops1, n) by {
                let j = choose|j: int| 0 <= j < ops0.len() && #[trigger] creates_label(ops0[j], n);
                assert(ops1[j] == ops0[j]);
            }
            assert forall|i: int| 0 <= i < ops1.len() implies refs_ok(
                #[trigger] ops1[i],
                |n: u32| temp_created(ops1.take(i), n),
                |n: u32| label_created(ops1.take(i), n),
            ) by {
                if i < ops0.len() {
                    assert(ops1.take(i) =~= ops0.take(i));
                    assert(ops1[i] == ops0[i]);
                } else {
                    assert(ops1.take(i) =~= ops0);
                    lemma_refs_ok_weaken(
                        op,
                        |n: u32| n < old(self).temps(),
                        |n: u32| n < old(self).labels(),
                        |n: u32| temp_created(ops1.take(i), n),
                        |n: u32| label_created(ops1.take(i), n),
                    );
                }
            }
        }
    }

    fn new_u32(&mut self) -> (r: Var)
        requires
            old(self).wf(),
            old(self).temps() < 0xffff_ffff,
        ensures
            final(self).wf(),
            r == Var::Temp(old(self).temps() as u32),
            final(self).ops_spec() == old(self).ops_spec().push(RecOp::NewU32(old(self).temps() as u32)),
            final(self).held_spec() == old(self).held_spec(),
            final(self).temps() == old(self).temps() + 1,
            final(self).labels() == old(self).labels(),
    {
        let id = self.next_temp;
        self.record(RecOp::NewU32(id));
        proof {
            assert(creates_temp(self.ops@[self.ops@.len() - 1], id));
        }
        self.next_temp = id + 1;
        Var::Temp(id)
    }

    fn new_u64(&mut self) -> (r: Var)
        requires
            old(self).wf(),
            old(self).temps() < 0xffff_ffff,
        ensures
            final(self).wf(),
            r == Var::Temp(old(self).temps() as u32),
            final(self).ops_spec() == old(self).ops_spec().push(RecOp::NewU64(old(self).temps() as u32)),
            final(self).held_spec() == old(self).held_spec(),
            final(self).temps() == old(self).temps() + 1,
            final(self).labels() == old(self).labels(),
    {
        let id = self.next_temp;
        self.record(RecOp::NewU64(id));
        proof {
            assert(creates_temp(self.ops@[self.ops@.len() - 1], id));
        }
        self.next_temp = id + 1;
        Var::Temp(id)
    }

    fn new_delayed_write(&mut self, reg: Var) -> (r: Var)
        requires
            old(self).wf(),
            old(self).temps() < 0xffff_ffff,
            var_ok(reg, |n: u32| n < old(self).temps()),
        ensures
            final(self).wf(),
            r == Var::Temp(old(self).temps() as u32),
            final(self).ops_spec() == old(self).ops_spec().push(
                RecOp::NewDelayedWrite { id: old(self).temps() as u32, reg },
            ),
            final(self).held_spec() == old(self).held_spec(),
            final(self).temps() == old(self).temps() + 1,
            final(self).labels() == old(self).labels(),
    {
        let id = self.next_temp;
        self.record(RecOp::NewDelayedWrite { id, reg });
        proof {
            assert(creates_temp(self.ops@[self.ops@.len() - 1], id));
        }
        self.next_temp = id + 1;
        Var::Temp(id)
    }

    fn new_label(&mut self) -> (r: RecLabel)
        requires
            old(self).wf(),
            old(self).labels() < 0xffff_ffff,
        ensures
            final(self).wf(),
            r == RecLabel(old(self).labels() as u32),
            final(self).ops_spec() == old(self).ops_spec().push(RecOp::NewLabel(old(self).labels() as u32)),
            final(self).held_spec() == old(self).held_spec(),
            final(self).temps() == old(self).temps(),
            final(self).labels() == old(self).labels() + 1,
    {
        let id = self.next_label;
        self.record(RecOp::NewLabel(id));
        proof {
            assert(creates_label(self.ops@[self.ops@.len() - 1], id));
        }
        self.next_label = id + 1;
        RecLabel(id)
    }

    pub(crate) fn new_long_label(&mut self) -> (r: RecLabel)
        requires
            old(self).wf(),
            old(self).labels() < 0xffff_ffff,
        ensures
            final(self).wf(),
            r == RecLabel(old(self).labels() as u32),
            final(self).ops_spec() == old(self).ops_spec().push(RecOp::NewLongLabel(old(self).labels() as u32)),
            final(self).held_spec() == old(self).held_spec(),
            final(self).temps() == old(self).temps(),
            final(self).labels() == old(self).labels() + 1,
    {
        let id = self.next_label;
        self.record(RecOp::NewLongLabel(id));
        proof {
            assert(creates_label(self.ops@[self.ops@.len() - 1], id));
        }
        self.next_label = id + 1;
        RecLabel(id)
    }

    /// Sets `dst` to CPU register `x`, or to zero when it is not held.
    fn set_or_zero(&mut self, dst: Var, x: u32)
        requires
            old(self).wf(),
            var_ok(dst, |n: u32| n < old(self).temps()),
        ensures
            final(self).wf(),
            final(self).ops_spec() == old(self).ops_spec().push(set_or_zero(dst, x, old(self).held_spec())),
            final(self).held_spec() == old(self).held_spec(),
            final(self).temps() == old(self).temps(),
            final(self).labels() == old(self).labels(),
    {
        match self.reg(x) {
            Some(r) => self.record(RecOp::SetV { dst, src: r }),
            None => self.record(RecOp::SetI { dst, imm: 0 }),
        }
    }

    /// ADDI and ADDIU.
    pub fn emit_addi(&mut self, op: u32)
        requires
            old(self).wf(),
        ensures
            final(self).wf(),
            final(self).ops_spec() == old(self).ops_spec() + addi_plan(
                rs_field(op),
                rt_field(op),
                imm16_field(op),
                old(self).held_spec(),
            ),
            final(self).held_spec() == old(self).held_spec(),
            final(self).temps() == old(self).temps(),
            final(self).labels() == old(self).labels(),
    {
        let s = get_rs(op);
        let t = get_rt(op);
        let imm16 = half_sign_extended(get_imm16(op));
        self.record(RecOp::ClearCarry);
        match self.reg(t) {
            Some(rt) => {
                if t == s {
                    self.record(RecOp::AddI { dst: rt, imm: to_signed(imm16) });
                } else {
                    self.record(RecOp::SetI { dst: rt, imm: imm16 });
                    match self.reg(s) {
                        Some(rs) => self.record(RecOp::AddV { dst: rt, src: rs }),
                        None => {},
                    }
                }
            },
            None => {},
        }
        assert(self.ops_spec() =~= old(self).ops_spec() + addi_plan(s, t, imm16_field(op), old(self).held_spec()));
    }

    /// J and JAL after the return address: PC takes the target in the current
    /// 256 MB region.
    pub fn emit_jump_imm26(&mut self, op: u32, pc: u32) -> (r: NextOp)
        requires
            old(self).wf(),
            old(self).held_spec().contains(PC),
        ensures
            final(self).wf(),
            final(self).ops_spec() == old(self).ops_spec() + jump_imm_plan(
                ((pc & 0xf000_0000) + imm26_field(op) * 4) as u32,
            ),
            final(self).held_spec() == old(self).held_spec(),
            final(self).temps() == old(self).temps(),
            final(self).labels() == old(self).labels(),
            r == NextOp::DelaySlot,
    {
        let dest = jump_target(pc, get_imm26(op));
        self.record(RecOp::SetI { dst: Var::Cpu(PC), imm: dest });
        self.record(RecOp::SetCarry);
        assert(self.ops_spec() =~= old(self).ops_spec() + jump_imm_plan(dest));
        NextOp::DelaySlot
    }

    /// JR and JALR after the return address: PC takes the value of `rs`.
    pub fn emit_jump_reg(&mut self, op: u32) -> (r: NextOp)
        requires
            old(self).wf(),
            old(self).held_spec().contains(PC),
        ensures
            final(self).wf(),
            final(self).ops_spec() == old(self).ops_spec() + jump_reg_plan(rs_field(op), old(self).held_spec()),
            final(self).held_spec() == old(self).held_spec(),
            final(self).temps() == old(self).temps(),
            final(self).labels() == old(self).labels(),
            r == NextOp::DelaySlot,
    {
        let s = get_rs(op);
        self.set_or_zero(Var::Cpu(PC), s);
        self.record(RecOp::SetCarry);
        assert(self.ops_spec() =~= old(self).ops_spec() + jump_reg_plan(s, old(self).held_spec()));
        NextOp::DelaySlot
    }

    /// BEQ, or BNE when `invert`.
    pub fn emit_branch_equal(&mut self, op: u32, pc: u32, invert: bool) -> (r: NextOp)
        requires
            old(self).wf(),
            old(self).held_spec().contains(PC),
            old(self).has_room(),
        ensures
            final(self).wf(),
            final(self).ops_spec() == old(self).ops_spec() + branch_equal_plan(
                rs_field(op),
                rt_field(op),
                branch_target(pc, imm16_field(op)),
                invert,
                old(self).held_spec(),
                old(self).labels(),
            ),
            final(self).held_spec() == old(self).held_spec(),
            final(self).temps() == old(self).temps(),
            final(self).labels() == old(self).labels() + 2,
            r == NextOp::DelaySlot,
    {
        let dest = relative_target(pc, get_imm16(op));
        let t = get_rt(op);
        let s = get_rs(op);
        let take_jump = self.new_label();
        let next_op = self.new_label();
        match (self.reg(s), self.reg(t)) {
            (None, None) => self.record(RecOp::SetZero),
            (Some(rs), None) => self.record(RecOp::TestV { a: rs, b: rs }),
            (None, Some(rt)) => self.record(RecOp::TestV { a: rt, b: rt }),
            (Some(rs), Some(rt)) => self.record(RecOp::CmpV { a: rs, b: rt }),
        }
        if invert {
            self.record(RecOp::JumpIfNotZero(take_jump));
        } else {
            self.record(RecOp::JumpIfZero(take_jump));
        }
        self.record(RecOp::ClearCarry);
        self.record(RecOp::Jump(next_op));
        self.record(RecOp::DefineLabel(take_jump));
        self.record(RecOp::SetI { dst: Var::Cpu(PC), imm: dest });
        self.record(RecOp::SetCarry);
        self.record(RecOp::DefineLabel(next_op));
        assert(self.ops_spec() =~= old(self).ops_spec() + branch_equal_plan(
            s,
            t,
            dest,
            invert,
            old(self).held_spec(),
            old(self).labels(),
        ));
        NextOp::DelaySlot
    }

    /// BGTZ, or BLEZ when `invert`.
    pub fn emit_branch_gtz(&mut self, op: u32, pc: u32, invert: bool) -> (r: NextOp)
        requires
            old(self).wf(),
            old(self).held_spec().contains(PC),
            old(self).has_room(),
        ensures
            final(self).wf(),
            final(self).ops_spec() == old(self).ops_spec() + branch_gtz_plan(
                rs_field(op),
                branch_target(pc, imm16_field(op)),
                invert,
                old(self).held_spec(),
                old(self).labels(),
            ),
            final(self).held_spec() == old(self).held_spec(),
            final(self).temps() == old(self).temps(),
            final(self).labels() == old(self).labels() + 3,
            r == NextOp::DelaySlot,
    {
        let dest = relative_target(pc, get_imm16(op));
        let s = get_rs(op);
        let skip_jump = self.new_label();
        let take_jump = self.new_label();
        let next_op = self.new_label();
        match self.reg(s) {
            None => self.record(RecOp::ClearSigned),
            Some(rs) => self.record(RecOp::TestV { a: rs, b: rs }),
        }
        if invert {
            self.record(RecOp::JumpIfZero(take_jump));
            self.record(RecOp::JumpIfSigned(take_jump));
            self.record(RecOp::Jump(skip_jump));
        } else {
            self.record(RecOp::JumpIfZero(skip_jump));
            self.record(RecOp::JumpIfSigned(skip_jump));
        }
        self.record(RecOp::DefineLabel(take_jump));
        self.record(RecOp::SetI { dst: Var::Cpu(PC), imm: dest });
        self.record(RecOp::SetCarry);
        self.record(RecOp::Jump(next_op));
        self.record(RecOp::DefineLabel(skip_jump));
        self.record(RecOp::ClearCarry);
        self.record(RecOp::DefineLabel(next_op));
        assert(self.ops_spec() =~= old(self).ops_spec() + branch_gtz_plan(
            s,
            dest,
            invert,
            old(self).held_spec(),
            old(self).labels(),
        ));
        NextOp::DelaySlot
    }

    /// BGEZ, or BLTZ when `invert`.
    pub fn emit_branch_gez(&mut self, op: u32, pc: u32, invert: bool) -> (r: NextOp)
        requires
            old(self).wf(),
            old(self).held_spec().contains(PC),
            old(self).has_room(),
        ensures
            final(self).wf(),
            final(self).ops_spec() == old(self).ops_spec() + branch_gez_plan(
                rs_field(op),
                branch_target(pc, imm16_field(op)),
                invert,
                old(self).held_spec(),
                old(self).labels(),
            ),
            final(self).held_spec() == old(self).held_spec(),
            final(self).temps() == old(self).temps(),
            final(self).labels() == old(self).labels() + 2,
            r == NextOp::DelaySlot,
    {
        let dest = relative_target(pc, get_imm16(op));
        let s = get_rs(op);
        let skip_jump = self.new_label();
        let next_op = self.new_label();
        match self.reg(s) {
            None => self.record(RecOp::ClearSigned),
            Some(rs) => self.record(RecOp::TestV { a: rs, b: rs }),
        }
        if invert {
            self.record(RecOp::JumpIfNotSigned(skip_jump));
        } else {
            self.record(RecOp::JumpIfSigned(skip_jump));
        }
        self.record(RecOp::SetI { dst: Var::Cpu(PC), imm: dest });
        self.record(RecOp::SetCarry);
        self.record(RecOp::Jump(next_op));
        self.record(RecOp::DefineLabel(skip_jump));
        self.record(RecOp::ClearCarry);
        self.record(RecOp::DefineLabel(next_op));
        assert(self.ops_spec() =~= old(self).ops_spec() + branch_gez_plan(
            s,
            dest,
            invert,
            old(self).held_spec(),
            old(self).labels(),
        ));
        NextOp::DelaySlot
    }

    /// SLL, SRL and SRA.
    fn emit_shift(&mut self, op: u32)
        requires
            old(self).wf(),
        ensures
            final(self).wf(),
            final(self).ops_spec() == old(self).ops_spec() + shift_plan(
                secondary_field(op),
                rt_field(op),
                rd_field(op),
                imm5_field(op),
                old(self).held_spec(),
            ),
            final(self).held_spec() == old(self).held_spec(),
            final(self).temps() == old(self).temps(),
            final(self).labels() == old(self).labels(),
    {
        let f = get_secondary_field(op);
        let t = get_rt(op);
        let d = get_rd(op);
        let imm5 = get_imm5(op);
        match self.reg(d) {
            Some(rd) => match self.reg(t) {
                Some(rt) => {
                    self.record(RecOp::SetV { dst: rd, src: rt });
                    if f == 0x00 {
                        self.record(RecOp::SllI { dst: rd, shift: imm5 });
                    } else if f == 0x02 {
                        self.record(RecOp::SrlI { dst: rd, shift: imm5 });
                    } else {
                        self.record(RecOp::SraI { dst: rd, shift: imm5 });
                    }
                },
                None => self.record(RecOp::SetI { dst: rd, imm: 0 }),
            },
            None => {},
        }
        assert(self.ops_spec() =~= old(self).ops_spec() + shift_plan(f, t, d, imm5, old(self).held_spec()));
    }

    /// DIV.
    fn emit_div(&mut self, op: u32)
        requires
            old(self).wf(),
            ({
                let held = old(self).held_spec();
                held.contains(HI) && held.contains(LO) && !(held.contains(rs_field(op)) && !held.contains(rt_field(op)))
            }),
        ensures
            final(self).wf(),
            final(self).ops_spec() == old(self).ops_spec() + div_plan(rs_field(op), rt_field(op), old(self).held_spec()),
            final(self).held_spec() == old(self).held_spec(),
            final(self).temps() == old(self).temps(),
            final(self).labels() == old(self).labels(),
    {
        let s = get_rs(op);
        let t = get_rt(op);
        let hi = Var::Cpu(HI);
        let lo = Var::Cpu(LO);
        match (self.reg(s), self.reg(t)) {
            (None, None) => {
                self.record(RecOp::SetI { dst: hi, imm: 0 });
                self.record(RecOp::SetI { dst: lo, imm: 0xffff_ffff });
            },
            (None, Some(_)) => {
                self.record(RecOp::SetI { dst: hi, imm: 0 });
                self.record(RecOp::SetI { dst: lo, imm: 0 });
            },
            (Some(rs), Some(rt)) => {
                self.record(RecOp::DivV { rs, rt, lo, hi });
            },
            (Some(_), None) => {},
        }
        assert(self.ops_spec() =~= old(self).ops_spec() + div_plan(s, t, old(self).held_spec()));
    }

    /// DIVU.
    fn emit_divu(&mut self, op: u32)
        requires
            old(self).wf(),
        ensures
            final(self).wf(),
            final(self).ops_spec() == old(self).ops_spec() + divu_plan(rs_field(op), rt_field(op), old(self).held_spec()),
            final(self).held_spec() == old(self).held_spec(),
            final(self).temps() == old(self).temps(),
            final(self).labels() == old(self).labels(),
    {
        let s = get_rs(op);
        let t = get_rt(op);
        let hi = Var::Cpu(HI);
        let lo = Var::Cpu(LO);
        match (self.reg(s), self.reg(t)) {
            (None, _) => {
                self.record(RecOp::SetI { dst: hi, imm: 0 });
                self.record(RecOp::SetI { dst: lo, imm: 0 });
            },
            (Some(rs), None) => {
                self.record(RecOp::SetV { dst: hi, src: rs });
                self.record(RecOp::SetI { dst: lo, imm: 0 });
            },
            (Some(rs), Some(rt)) => {
                self.record(RecOp::DivuV { rs, rt, lo, hi });
            },
        }
        assert(self.ops_spec() =~= old(self).ops_spec() + divu_plan(s, t, old(self).held_spec()));
    }

    /// ADD and ADDU (sum), and OR when `or`.
    fn emit_combine(&mut self, op: u32, or: bool)
        requires
            old(self).wf(),
        ensures
            final(self).wf(),
            final(self).ops_spec() == old(self).ops_spec() + combine_plan(
                rs_field(op),
                rt_field(op),
                rd_field(op),
                or,
                old(self).held_spec(),
            ),
            final(self).held_spec() == old(self).held_spec(),
            final(self).temps() == old(self).temps(),
            final(self).labels() == old(self).labels(),
    {
        let s = get_rs(op);
        let t = get_rt(op);
        let d = get_rd(op);
        match self.reg(d) {
            Some(rd) => match (self.reg(s), self.reg(t)) {
                (None, None) => self.record(RecOp::SetI { dst: rd, imm: 0 }),
                (None, Some(rt)) => self.record(RecOp::SetV { dst: rd, src: rt }),
                (Some(rs), None) => self.record(RecOp::SetV { dst: rd, src: rs }),
                (Some(rs), Some(rt)) => {
                    self.record(RecOp::SetV { dst: rd, src: rs });
                    if or {
                        self.record(RecOp::OrV { dst: rd, src: rt });
                    } else {
                        self.record(RecOp::AddV { dst: rd, src: rt });
                    }
                },
            },
            None => {},
        }
        assert(self.ops_spec() =~= old(self).ops_spec() + combine_plan(s, t, d, or, old(self).held_spec()));
    }

    /// SUBU.
    fn emit_subu(&mut self, op: u32)
        requires
            old(self).wf(),
        ensures
            final(self).wf(),
            final(self).ops_spec() == old(self).ops_spec() + subu_plan(rs_field(op), rt_field(op), rd_field(op), old(self).held_spec()),
            final(self).held_spec() == old(self).held_spec(),
            final(self).temps() == old(self).temps(),
            final(self).labels() == old(self).labels(),
    {
        let s = get_rs(op);
        let t = get_rt(op);
        let d = get_rd(op);
        match self.reg(d) {
            Some(rd) => {
                self.set_or_zero(rd, s);
                match self.reg(t) {
                    Some(rt) => self.record(RecOp::SubV { dst: rd, src: rt }),
                    None => {},
                }
            },
            None => {},
        }
        assert(self.ops_spec() =~= old(self).ops_spec() + subu_plan(s, t, d, old(self).held_spec()));
    }

    /// AND.
    fn emit_and(&mut self, op: u32)
        requires
            old(self).wf(),
        ensures
            final(self).wf(),
            final(self).ops_spec() == old(self).ops_spec() + and_plan(rs_field(op), rt_field(op), rd_field(op), old(self).held_spec()),
            final(self).held_spec() == old(self).held_spec(),
            final(self).temps() == old(self).temps(),
            final(self).labels() == old(self).labels(),
    {
        let s = get_rs(op);
        let t = get_rt(op);
        let d = get_rd(op);
        match self.reg(d) {
            Some(rd) => match (self.reg(s), self.reg(t)) {
                (Some(rs), Some(rt)) => {
                    self.record(RecOp::SetV { dst: rd, src: rs });
                    self.record(RecOp::AndV { dst: rd, src: rt });
                },
                _ => self.record(RecOp::SetI { dst: rd, imm: 0 }),
            },
            None => {},
        }
        assert(self.ops_spec() =~= old(self).ops_spec() + and_plan(s, t, d, old(self).held_spec()));
    }

    /// The jump of a set-on-less-than to `skip_set` when the compare found its first
    /// operand not below the second.
    fn emit_not_below(&mut self, unsigned: bool, skip_set: RecLabel)
        requires
            old(self).wf(),
            skip_set.0 < old(self).labels(),
        ensures
            final(self).wf(),
            final(self).ops_spec() == old(self).ops_spec().push(not_below(unsigned, skip_set)),
            final(self).held_spec() == old(self).held_spec(),
            final(self).temps() == old(self).temps(),
            final(self).labels() == old(self).labels(),
    {
        if unsigned {
            self.record(RecOp::JumpIfNotCarry(skip_set));
        } else {
            self.record(RecOp::JumpIfNotLess(skip_set));
        }
    }

    fn emit_set_flag_tail(&mut self, dst: Var, skip_set: RecLabel, end: RecLabel)
        requires
            old(self).wf(),
            var_ok(dst, |n: u32| n < old(self).temps()),
            skip_set.0 < old(self).labels(),
            end.0 < old(self).labels(),
        ensures
            final(self).wf(),
            final(self).ops_spec() == old(self).ops_spec() + set_flag_tail(dst, skip_set, end),
            final(self).held_spec() == old(self).held_spec(),
            final(self).temps() == old(self).temps(),
            final(self).labels() == old(self).labels(),
    {
        self.record(RecOp::SetI { dst, imm: 1 });
        self.record(RecOp::Jump(end));
        self.record(RecOp::DefineLabel(skip_set));
        self.record(RecOp::SetI { dst, imm: 0 });
        self.record(RecOp::DefineLabel(end));
        assert(self.ops_spec() =~= old(self).ops_spec() + set_flag_tail(dst, skip_set, end));
    }

    /// SLT, or SLTU when `unsigned`.
    fn emit_set_less(&mut self, op: u32, unsigned: bool)
        requires
            old(self).wf(),
            old(self).has_room(),
        ensures
            final(self).wf(),
            final(self).ops_spec() == old(self).ops_spec() + set_less_plan(
                rs_field(op),
                rt_field(op),
                rd_field(op),
                unsigned,
                old(self).held_spec(),
                old(self).temps(),
                old(self).labels(),
            ),
            final(self).held_spec() == old(self).held_spec(),
            final(self).temps() == old(self).temps() + if old(self).held_spec().contains(rd_field(op)) { 1int } else { 0 },
            final(self).labels() == old(self).labels() + if old(self).held_spec().contains(rd_field(op)) { 2int } else { 0 },
    {
        let s = get_rs(op);
        let t = get_rt(op);
        let d = get_rd(op);
        match self.reg(d) {
            Some(rd) => {
                let skip_set = self.new_label();
                let end = self.new_label();
                let zero = self.new_u32();
                self.record(RecOp::SetI { dst: zero, imm: 0 });
                match (self.reg(t), self.reg(s)) {
                    (None, None) => self.record(RecOp::Jump(skip_set)),
                    (Some(rt), None) => {
                        self.record(RecOp::CmpV { a: rt, b: zero });
                        self.emit_not_below(unsigned, skip_set);
                    },
                    (None, Some(rs)) => {
                        self.record(RecOp::CmpV { a: zero, b: rs });
                        self.emit_not_below(unsigned, skip_set);
                    },
                    (Some(rt), Some(rs)) => {
                        self.record(RecOp::CmpV { a: rt, b: rs });
                        self.emit_not_below(unsigned, skip_set);
                    },
                }
                self.emit_set_flag_tail(rd, skip_set, end);
            },
            None => {},
        }
        assert(self.ops_spec() =~= old(self).ops_spec() + set_less_plan(
            s,
            t,
            d,
            unsigned,
            old(self).held_spec(),
            old(self).temps(),
            old(self).labels(),
        ));
    }

    /// SLTI, or SLTIU when `unsigned`.
    fn emit_set_less_imm(&mut self, op: u32, unsigned: bool)
        requires
            old(self).wf(),
            old(self).has_room(),
        ensures
            final(self).wf(),
            final(self).ops_spec() == old(self).ops_spec() + set_less_imm_plan(
                rs_field(op),
                rt_field(op),
                imm16_field(op),
                unsigned,
                old(self).held_spec(),
                old(self).temps(),
                old(self).labels(),
            ),
            final(self).held_spec() == old(self).held_spec(),
            final(self).temps() == old(self).temps() + if old(self).held_spec().contains(rt_field(op)) { 2int } else { 0 },
            final(self).labels() == old(self).labels() + if old(self).held_spec().contains(rt_field(op)) { 2int } else { 0 },
    {
        let s = get_rs(op);
        let t = get_rt(op);
        let imm16 = half_sign_extended(get_imm16(op));
        match self.reg(t) {
            Some(rt) => {
                let skip_set = self.new_label();
                let end = self.new_label();
                let zero = self.new_u32();
                let temp = self.new_u32();
                self.record(RecOp::SetI { dst: zero, imm: 0 });
                self.record(RecOp::SetI { dst: temp, imm: imm16 });
                match self.reg(s) {
                    Some(rs) => self.record(RecOp::CmpV { a: temp, b: rs }),
                    None => self.record(RecOp::CmpV { a: temp, b: zero }),
                }
                self.emit_not_below(unsigned, skip_set);
                self.emit_set_flag_tail(rt, skip_set, end);
            },
            None => {},
        }
        assert(self.ops_spec() =~= old(self).ops_spec() + set_less_imm_plan(
            s,
            t,
            imm16_field(op),
            unsigned,
            old(self).held_spec(),
            old(self).temps(),
            old(self).labels(),
        ));
    }

    /// ANDI.
    fn emit_andi(&mut self, op: u32)
        requires
            old(self).wf(),
        ensures
            final(self).wf(),
            final(self).ops_spec() == old(self).ops_spec() + andi_plan(rs_field(op), rt_field(op), imm16_field(op), old(self).held_spec()),
            final(self).held_spec() == old(self).held_spec(),
            final(self).temps() == old(self).temps(),
            final(self).labels() == old(self).labels(),
    {
        let s = get_rs(op);
        let t = get_rt(op);
        let imm16 = get_imm16(op);
        match self.reg(t) {
            Some(rt) => match self.reg(s) {
                Some(rs) => {
                    self.record(RecOp::SetV { dst: rt, src: rs });
                    self.record(RecOp::AndI { dst: rt, imm: imm16 });
                },
                None => self.record(RecOp::SetI { dst: rt, imm: 0 }),
            },
            None => {},
        }
        assert(self.ops_spec() =~= old(self).ops_spec() + andi_plan(s, t, imm16, old(self).held_spec()));
    }

    /// ORI.
    fn emit_ori(&mut self, op: u32)
        requires
            old(self).wf(),
        ensures
            final(self).wf(),
            final(self).ops_spec() == old(self).ops_spec() + ori_plan(rs_field(op), rt_field(op), imm16_field(op), old(self).held_spec()),
            final(self).held_spec() == old(self).held_spec(),
            final(self).temps() == old(self).temps(),
            final(self).labels() == old(self).labels(),
    {
        let s = get_rs(op);
        let t = get_rt(op);
        let imm16 = get_imm16(op);
        match self.reg(t) {
            Some(rt) => {
                if s == t {
                    self.record(RecOp::OrI { dst: rt, imm: imm16 });
                } else {
                    self.record(RecOp::SetI { dst: rt, imm: imm16 });
                    match self.reg(s) {
                        Some(rs) => self.record(RecOp::OrV { dst: rt, src: rs }),
                        None => {},
                    }
                }
            },
            None => {},
        }
        assert(self.ops_spec() =~= old(self).ops_spec() + ori_plan(s, t, imm16, old(self).held_spec()));
    }

    /// MFC0.
    fn emit_mfc0(&mut self, op: u32)
        requires
            old(self).wf(),
            old(self).has_room(),
        ensures
            final(self).wf(),
            final(self).ops_spec() == old(self).ops_spec() + mfc0_plan(rt_field(op), rd_field(op), old(self).held_spec(), old(self).temps()),
            final(self).held_spec() == old(self).held_spec(),
            final(self).temps() == old(self).temps() + if kept_cop0(rd_field(op)) && old(self).held_spec().contains(rt_field(op)) { 2int } else { 0 },
            final(self).labels() == old(self).labels(),
    {
        let t = get_rt(op);
        let d = get_rd(op);
        if d == 12 || d == 13 || d == 14 {
            match self.reg(t) {
                Some(rt) => {
                    let delayed_write = self.new_delayed_write(rt);
                    let cop0_rd = self.new_u64();
                    self.record(RecOp::LoadPtr { dst: cop0_rd, pos: COP0_REG_POS });
                    self.record(RecOp::IndexU32 { ptr: cop0_rd, index: (d - 12) as i32 });
                    self.record(RecOp::SetV { dst: delayed_write, src: cop0_rd });
                },
                None => {},
            }
        }
        assert(self.ops_spec() =~= old(self).ops_spec() + mfc0_plan(t, d, old(self).held_spec(), old(self).temps()));
    }

    /// MTC0.
    fn emit_mtc0(&mut self, op: u32)
        requires
            old(self).wf(),
            old(self).has_room(),
        ensures
            final(self).wf(),
            final(self).ops_spec() == old(self).ops_spec() + mtc0_plan(rt_field(op), rd_field(op), old(self).held_spec(), old(self).temps()),
            final(self).held_spec() == old(self).held_spec(),
            final(self).temps() == old(self).temps() + if kept_cop0(rd_field(op)) { 2int } else { 0 },
            final(self).labels() == old(self).labels(),
    {
        let t = get_rt(op);
        let d = get_rd(op);
        if d == 12 || d == 13 || d == 14 {
            let zero = self.new_u32();
            self.record(RecOp::SetI { dst: zero, imm: 0 });
            let cop0_rd = self.new_u64();
            self.record(RecOp::LoadPtr { dst: cop0_rd, pos: COP0_REG_POS });
            match self.reg(t) {
                Some(rt) => self.record(RecOp::IndexMutU32 { ptr: cop0_rd, src: rt, index: (d - 12) as i32 }),
                None => self.record(RecOp::IndexMutU32 { ptr: cop0_rd, src: zero, index: (d - 12) as i32 }),
            }
        }
        assert(self.ops_spec() =~= old(self).ops_spec() + mtc0_plan(t, d, old(self).held_spec(), old(self).temps()));
    }

    /// SYSCALL, at address `pc` - 4.
    fn emit_syscall(&mut self, pc: u32)
        requires
            old(self).wf(),
            old(self).held_spec().contains(PC),
            old(self).has_room(),
        ensures
            final(self).wf(),
            final(self).ops_spec() == old(self).ops_spec() + syscall_plan(pc, old(self).temps()),
            final(self).held_spec() == old(self).held_spec(),
            final(self).temps() == old(self).temps() + 3,
            final(self).labels() == old(self).labels(),
    {
        let jit_pc = self.new_u32();
        let exception = self.new_u32();
        let console = self.new_u64();
        self.record(RecOp::LoadPtr { dst: console, pos: CONSOLE_POS });
        self.record(RecOp::SetI { dst: jit_pc, imm: pc });
        self.record(RecOp::SetI { dst: exception, imm: SYSCALL_KIND });
        self.record(RecOp::SetArg1(console));
        self.record(RecOp::SetArg2(exception));
        self.record(RecOp::SetArg3(jit_pc));
        self.record(RecOp::SetRet(Var::Cpu(PC)));
        self.record(RecOp::CallPtr(GEN_EXCEPTION));
        assert(self.ops_spec() =~= old(self).ops_spec() + syscall_plan(pc, old(self).temps()));
    }

    /// A load through the reader at `function_ptr` in the pointer table.
    pub fn emit_load(&mut self, op: u32, function_ptr: usize)
        requires
            old(self).wf(),
            old(self).has_room(),
        ensures
            final(self).wf(),
            final(self).ops_spec() == old(self).ops_spec() + load_plan(
                rs_field(op),
                rt_field(op),
                imm16_field(op),
                function_ptr,
                old(self).held_spec(),
                old(self).temps(),
                old(self).labels(),
            ),
            final(self).held_spec() == old(self).held_spec(),
            final(self).temps() == old(self).temps() + if old(self).held_spec().contains(rt_field(op)) { 3int } else { 0 },
            final(self).labels() == old(self).labels() + if old(self).held_spec().contains(rt_field(op)) { 1int } else { 0 },
    {
        let t = get_rt(op);
        let s = get_rs(op);
        match self.reg(t) {
            Some(rt) => {
                let imm16 = half_sign_extended(get_imm16(op));
                let end = self.new_label();
                let console = self.new_u64();
                let address = self.new_u32();
                self.record(RecOp::LoadPtr { dst: console, pos: CONSOLE_POS });
                self.set_or_zero(address, s);
                self.record(RecOp::AddI { dst: address, imm: to_signed(imm16) });
                self.record(RecOp::SetArg1(console));
                self.record(RecOp::SetArg2(address));
                let delayed_write = self.new_delayed_write(rt);
                self.record(RecOp::SetRet(delayed_write));
                self.record(RecOp::CallPtrWithRet(function_ptr));
                self.record(RecOp::DefineLabel(end));
            },
            None => {},
        }
        assert(self.ops_spec() =~= old(self).ops_spec() + load_plan(
            s,
            t,
            imm16_field(op),
            function_ptr,
            old(self).held_spec(),
            old(self).temps(),
            old(self).labels(),
        ));
    }

    /// A store through the writer at `function_ptr` in the pointer table.
    pub fn emit_store(&mut self, op: u32, function_ptr: usize)
        requires
            old(self).wf(),
            old(self).has_room(),
        ensures
            final(self).wf(),
            final(self).ops_spec() == old(self).ops_spec() + store_plan(
                rs_field(op),
                rt_field(op),
                imm16_field(op),
                function_ptr,
                old(self).held_spec(),
                old(self).temps(),
                old(self).labels(),
            ),
            final(self).held_spec() == old(self).held_spec(),
            final(self).temps() == old(self).temps() + 3,
            final(self).labels() == old(self).labels() + 1,
    {
        let s = get_rs(op);
        let t = get_rt(op);
        let imm16 = half_sign_extended(get_imm16(op));
        let cop0r12 = self.new_u32();
        let end = self.new_label();
        let console = self.new_u64();
        let address = self.new_u32();
        self.record(RecOp::LoadPtr { dst: console, pos: CONSOLE_POS });
        self.set_or_zero(address, s);
        self.record(RecOp::AddI { dst: address, imm: to_signed(imm16) });
        self.record(RecOp::SetArg1(console));
        self.record(RecOp::SetArg2(address));
        match self.reg(t) {
            Some(rt) => self.record(RecOp::SetArg3(rt)),
            None => self.record(RecOp::ZeroArg3),
        }
        self.record(RecOp::LoadPtr { dst: cop0r12, pos: COP0_REG_POS });
        self.record(RecOp::DerefU32(cop0r12));
        self.record(RecOp::BtI { v: cop0r12, bit: 16 });
        self.record(RecOp::JumpIfCarry(end));
        self.record(RecOp::CallPtr(function_ptr));
        self.record(RecOp::DefineLabel(end));
        assert(self.ops_spec() =~= old(self).ops_spec() + store_plan(
            s,
            t,
            imm16_field(op),
            function_ptr,
            old(self).held_spec(),
            old(self).temps(),
            old(self).labels(),
        ));
    }

    /// Records the calls that translate one instruction of the block that starts at
    /// `initial_pc`, and says how the block goes on after it.
    pub fn emit_insn(&mut self, insn: &Insn, initial_pc: u32) -> (r: NextOp)
        requires
            old(self).wf(),
            recompilable(insn.op_spec(), old(self).held_spec()),
            old(self).has_room(),
        ensures
            final(self).wf(),
            ({
                let plan = insn_plan(
                    insn.op_spec(),
                    wrap32(initial_pc + insn.offset_spec()),
                    old(self).held_spec(),
                    old(self).temps(),
                    old(self).labels(),
                );
                &&& final(self).ops_spec() == old(self).ops_spec() + plan.0
                &&& r == plan.1
                &&& final(self).temps() == old(self).temps() + plan.2
                &&& final(self).labels() == old(self).labels() + plan.3
            }),
            final(self).held_spec() == old(self).held_spec(),
    {
        let op = insn.op();
        let pc = initial_pc.wrapping_add(insn.offset());
        proof {
            let m: int = 0x1_0000_0000;
            vstd::arithmetic::div_mod::lemma_mod_twice(initial_pc + insn.offset_spec(), m);
        }
        assert(pc == wrap32(initial_pc + insn.offset_spec()));
        let ret = pc.wrapping_add(4);
        assert(ret == wrap32(pc + 4));
        let p = get_primary_field(op);
        if p == 0x00 {
            let f = get_secondary_field(op);
            if f == 0x00 || f == 0x02 || f == 0x03 {
                self.emit_shift(op);
                NextOp::Standard
            } else if f == 0x08 {
                self.emit_jump_reg(op)
            } else if f == 0x09 {
                self.record(RecOp::SetI { dst: Var::Cpu(RA), imm: ret });
                let r = self.emit_jump_reg(op);
                assert(self.ops_spec() =~= old(self).ops_spec() + (seq![RecOp::SetI { dst: Var::Cpu(RA), imm: ret }]
                    + jump_reg_plan(rs_field(op), old(self).held_spec())));
                r
            } else if f == 0x0c {
                self.emit_syscall(pc);
                NextOp::Exit
            } else if f == 0x0d {
                self.record(RecOp::IllegalInsn);
                assert(self.ops_spec() =~= old(self).ops_spec() + seq![RecOp::IllegalInsn]);
                NextOp::Standard
            } else if f == 0x10 || f == 0x12 {
                let special = if f == 0x10 { HI } else { LO };
                let d = get_rd(op);
                match self.reg(d) {
                    Some(rd) => self.record(RecOp::SetV { dst: rd, src: Var::Cpu(special) }),
                    None => {},
                }
                assert(self.ops_spec() =~= old(self).ops_spec() + move_from_plan(special, d, old(self).held_spec()));
                NextOp::Standard
            } else if f == 0x11 || f == 0x13 {
                let special = if f == 0x11 { HI } else { LO };
                self.set_or_zero(Var::Cpu(special), get_rs(op));
                assert(self.ops_spec() =~= old(self).ops_spec() + seq![set_or_zero(Var::Cpu(special), rs_field(op), old(self).held_spec())]);
                NextOp::Standard
            } else if f == 0x1a {
                self.emit_div(op);
                NextOp::Standard
            } else if f == 0x1b {
                self.emit_divu(op);
                NextOp::Standard
            } else if f == 0x20 || f == 0x21 || f == 0x25 {
                self.emit_combine(op, f == 0x25);
                NextOp::Standard
            } else if f == 0x23 {
                self.emit_subu(op);
                NextOp::Standard
            } else if f == 0x24 {
                self.emit_and(op);
                NextOp::Standard
            } else {
                self.emit_set_less(op, f == 0x2b);
                NextOp::Standard
            }
        } else if p == 0x01 {
            let _ = self.emit_branch_gez(op, pc, get_rt(op) == 0);
            NextOp::Standard
        } else if p == 0x02 {
            self.emit_jump_imm26(op, pc)
        } else if p == 0x03 {
            self.record(RecOp::SetI { dst: Var::Cpu(RA), imm: ret });
            let r = self.emit_jump_imm26(op, pc);
            assert(self.ops_spec() =~= old(self).ops_spec() + (seq![RecOp::SetI { dst: Var::Cpu(RA), imm: ret }]
                + jump_imm_plan(((pc & 0xf000_0000) + imm26_field(op) * 4) as u32)));
            r
        } else if p == 0x04 || p == 0x05 {
            self.emit_branch_equal(op, pc, p == 0x05)
        } else if p == 0x06 || p == 0x07 {
            self.emit_branch_gtz(op, pc, p == 0x06)
        } else if p == 0x08 || p == 0x09 {
            self.emit_addi(op);
            NextOp::Standard
        } else if p == 0x0a || p == 0x0b {
            self.emit_set_less_imm(op, p == 0x0b);
            NextOp::Standard
        } else if p == 0x0c {
            self.emit_andi(op);
            NextOp::Standard
        } else if p == 0x0d {
            self.emit_ori(op);
            NextOp::Standard
        } else if p == 0x0f {
            let t = get_rt(op);
            let imm16 = get_imm16(op);
            match self.reg(t) {
                Some(rt) => self.record(RecOp::SetI { dst: rt, imm: imm16 << 16 }),
                None => {},
            }
            proof {
                assert((imm16 << 16) == imm16 * 0x1_0000) by (bit_vector)
                    requires imm16 < 0x1_0000;
            }
            assert(self.ops_spec() =~= old(self).ops_spec() + (if old(self).held_spec().contains(t) {
                seq![RecOp::SetI { dst: Var::Cpu(t), imm: (imm16 * 0x1_0000) as u32 }]
            } else {
                seq![]
            }));
            NextOp::Standard
        } else if p == 0x10 {
            if get_rs(op) == 0 {
                self.emit_mfc0(op);
            } else {
                self.emit_mtc0(op);
            }
            NextOp::Standard
        } else if p == 0x28 {
            self.emit_store(op, WRITE_BYTE_POS);
            NextOp::Standard
        } else if p == 0x29 {
            self.emit_store(op, WRITE_HALF_POS);
            NextOp::Standard
        } else if p == 0x2b {
            self.emit_store(op, WRITE_WORD_POS);
            NextOp::Standard
        } else {
            let pos = if p == 0x20 {
                READ_BYTE_SIGN_EXTENDED_POS
            } else if p == 0x21 {
                READ_HALF_SIGN_EXTENDED_POS
            } else if p == 0x23 {
                READ_WORD_POS
            } else if p == 0x24 {
                READ_BYTE_POS
            } else {
                READ_HALF_POS
            };
            self.emit_load(op, pos);
            NextOp::Standard
        }
    }
}

} // verus!
