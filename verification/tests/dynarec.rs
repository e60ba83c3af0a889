use rspsx::jit::caching_interpreter::tag_opcodes;
use rspsx::jit::insn::Insn;
use rspsx::jit::x64_jit::block::{create_function, NextOp};
use rspsx::jit::x64_jit::dynarec::{is_recompilable, RecLabel, RecOp, Recompiler, Var, HI, CONSOLE_POS, COP0_REG_POS, PC, READ_WORD_POS, WRITE_WORD_POS};

fn cpu(x: u32) -> Var {
    Var::Cpu(x)
}

#[test]
fn addu_adds_held_registers() {
    let mut rc = Recompiler::new(vec![1, 2, 3, PC]);
    // addu $3, $1, $2
    let next = rc.emit_insn(&Insn::new(0x0022_1821, 4), 0x1000);
    assert_eq!(next, NextOp::Standard);
    assert_eq!(rc.ops(), &vec![RecOp::SetV { dst: cpu(3), src: cpu(1) }, RecOp::AddV { dst: cpu(3), src: cpu(2) }]);
}

#[test]
fn unheld_registers_read_as_zero_and_take_no_writes() {
    let mut rc = Recompiler::new(vec![3, PC]);
    // addu $3, $1, $2 with neither source held
    rc.emit_insn(&Insn::new(0x0022_1821, 4), 0x1000);
    // or $4, $3, $3 with the destination not held
    rc.emit_insn(&Insn::new(0x0063_2025, 8), 0x1000);
    assert_eq!(rc.ops(), &vec![RecOp::SetI { dst: cpu(3), imm: 0 }]);
}

#[test]
fn beq_sets_pc_to_the_target_when_taken() {
    let mut rc = Recompiler::new(vec![1, 2, PC]);
    // beq $1, $2, +3 at 0x1000: the delay slot is at 0x1004
    let next = rc.emit_insn(&Insn::new(0x1022_0003, 4), 0x1000);
    assert_eq!(next, NextOp::DelaySlot);
    assert_eq!(
        rc.ops(),
        &vec![
            RecOp::NewLabel(0),
            RecOp::NewLabel(1),
            RecOp::CmpV { a: cpu(1), b: cpu(2) },
            RecOp::JumpIfZero(RecLabel(0)),
            RecOp::ClearCarry,
            RecOp::Jump(RecLabel(1)),
            RecOp::DefineLabel(RecLabel(0)),
            RecOp::SetI { dst: cpu(PC), imm: 0x1010 },
            RecOp::SetCarry,
            RecOp::DefineLabel(RecLabel(1)),
        ]
    );
}

#[test]
fn jal_links_past_the_delay_slot() {
    let mut rc = Recompiler::new(vec![31, PC]);
    // jal 0x0010_0000 at 0x8000_1000
    let next = rc.emit_insn(&Insn::new(0x0c04_0000, 4), 0x8000_1000);
    assert_eq!(next, NextOp::DelaySlot);
    assert_eq!(
        rc.ops(),
        &vec![
            RecOp::SetI { dst: cpu(31), imm: 0x8000_1008 },
            RecOp::SetI { dst: cpu(PC), imm: 0x8010_0000 },
            RecOp::SetCarry,
        ]
    );
}

#[test]
fn loads_and_stores_call_through_the_pointer_table() {
    let mut rc = Recompiler::new(vec![1, 2, PC]);
    // lw $2, -4($1)
    rc.emit_insn(&Insn::new(0x8c22_fffc, 4), 0);
    // sw $2, 8($0)
    rc.emit_insn(&Insn::new(0xac02_0008, 8), 0);
    assert_eq!(
        rc.ops(),
        &vec![
            RecOp::NewLabel(0),
            RecOp::NewU64(0),
            RecOp::NewU32(1),
            RecOp::LoadPtr { dst: Var::Temp(0), pos: CONSOLE_POS },
            RecOp::SetV { dst: Var::Temp(1), src: cpu(1) },
            RecOp::AddI { dst: Var::Temp(1), imm: -4 },
            RecOp::SetArg1(Var::Temp(0)),
            RecOp::SetArg2(Var::Temp(1)),
            RecOp::NewDelayedWrite { id: 2, reg: cpu(2) },
            RecOp::SetRet(Var::Temp(2)),
            RecOp::CallPtrWithRet(READ_WORD_POS),
            RecOp::DefineLabel(RecLabel(0)),
            RecOp::NewU32(3),
            RecOp::NewLabel(1),
            RecOp::NewU64(4),
            RecOp::NewU32(5),
            RecOp::LoadPtr { dst: Var::Temp(4), pos: CONSOLE_POS },
            RecOp::SetI { dst: Var::Temp(5), imm: 0 },
            RecOp::AddI { dst: Var::Temp(5), imm: 8 },
            RecOp::SetArg1(Var::Temp(4)),
            RecOp::SetArg2(Var::Temp(5)),
            RecOp::SetArg3(cpu(2)),
            RecOp::LoadPtr { dst: Var::Temp(3), pos: COP0_REG_POS },
            RecOp::DerefU32(Var::Temp(3)),
            RecOp::BtI { v: Var::Temp(3), bit: 16 },
            RecOp::JumpIfCarry(RecLabel(1)),
            RecOp::CallPtr(WRITE_WORD_POS),
            RecOp::DefineLabel(RecLabel(1)),
        ]
    );
}

#[test]
fn slti_compares_against_the_sign_extended_immediate() {
    let mut rc = Recompiler::new(vec![1, 2, PC]);
    // slti $2, $1, -1
    rc.emit_insn(&Insn::new(0x2822_ffff, 4), 0);
    assert_eq!(
        rc.ops(),
        &vec![
            RecOp::NewLabel(0),
            RecOp::NewLabel(1),
            RecOp::NewU32(0),
            RecOp::NewU32(1),
            RecOp::SetI { dst: Var::Temp(0), imm: 0 },
            RecOp::SetI { dst: Var::Temp(1), imm: 0xffff_ffff },
            RecOp::CmpV { a: Var::Temp(1), b: cpu(1) },
            RecOp::JumpIfNotLess(RecLabel(0)),
            RecOp::SetI { dst: cpu(2), imm: 1 },
            RecOp::Jump(RecLabel(1)),
            RecOp::DefineLabel(RecLabel(0)),
            RecOp::SetI { dst: cpu(2), imm: 0 },
            RecOp::DefineLabel(RecLabel(1)),
        ]
    );
}

#[test]
fn block_translation_ends_in_the_exit_label() {
    // addiu $1, $0, 5; j 0; nop
    let words = vec![0x2401_0005, 0x0800_0000, 0x0000_0000];
    let insns = tag_opcodes(&words, 3);
    let rc = create_function(&insns, 0xbfc0_0000);
    let mut held = rc.held().clone();
    held.sort();
    assert_eq!(held, vec![1, PC]);
    assert_eq!(
        rc.ops(),
        &vec![
            RecOp::NewLongLabel(0),
            // addiu
            RecOp::ClearCarry,
            RecOp::SetI { dst: cpu(1), imm: 5 },
            RecOp::ProcessDelayedWrite,
            // j 0 from 0xbfc00004: PC goes to 0xb0000000
            RecOp::SetI { dst: cpu(PC), imm: 0xb000_0000 },
            RecOp::SetCarry,
            RecOp::SaveFlags,
            RecOp::ProcessDelayedWrite,
            // the delay slot (sll $0, $0, 0 writes nothing), then the taken jump leaves
            RecOp::ProcessDelayedWrite,
            RecOp::PrepareForExit,
            RecOp::LoadFlags,
            RecOp::JumpIfCarry(RecLabel(0)),
            RecOp::SetI { dst: cpu(PC), imm: 0xbfc0_000c },
            RecOp::PrepareForExit,
            RecOp::DefineLabel(RecLabel(0)),
        ]
    );
}

#[test]
fn hi_and_lo_instructions_need_their_registers_held() {
    // mfhi $1
    assert!(!is_recompilable(0x0000_0810, &vec![1, PC]));
    assert!(is_recompilable(0x0000_0810, &vec![1, HI, PC]));
    // a jump needs PC
    assert!(!is_recompilable(0x0800_0000, &vec![1]));
    // an opcode the recompiler does not know (xor)
    assert!(!is_recompilable(0x0022_1826, &vec![1, 2, 3, PC]));
}

fn temps_used(op: &RecOp) -> Vec<u32> {
    let vars: Vec<Var> = match *op {
        RecOp::NewDelayedWrite { reg, .. } => vec![reg],
        RecOp::SetV { dst, src } | RecOp::AddV { dst, src } | RecOp::SubV { dst, src } => vec![dst, src],
        RecOp::AndV { dst, src } | RecOp::OrV { dst, src } => vec![dst, src],
        RecOp::SetI { dst, .. } | RecOp::AddI { dst, .. } | RecOp::AndI { dst, .. } | RecOp::OrI { dst, .. } => vec![dst],
        RecOp::SllI { dst, .. } | RecOp::SrlI { dst, .. } | RecOp::SraI { dst, .. } => vec![dst],
        RecOp::DivV { rs, rt, lo, hi } | RecOp::DivuV { rs, rt, lo, hi } => vec![rs, rt, lo, hi],
        RecOp::CmpV { a, b } | RecOp::TestV { a, b } => vec![a, b],
        RecOp::BtI { v, .. } | RecOp::DerefU32(v) => vec![v],
        RecOp::LoadPtr { dst, .. } => vec![dst],
        RecOp::IndexU32 { ptr, .. } => vec![ptr],
        RecOp::IndexMutU32 { ptr, src, .. } => vec![ptr, src],
        RecOp::SetArg1(v) | RecOp::SetArg2(v) | RecOp::SetArg3(v) | RecOp::SetRet(v) => vec![v],
        _ => vec![],
    };
    vars.into_iter().filter_map(|v| match v { Var::Temp(n) => Some(n), Var::Cpu(_) => None }).collect()
}

fn label_used(op: &RecOp) -> Option<u32> {
    match *op {
        RecOp::Jump(l) | RecOp::JumpIfNotLess(l) | RecOp::JumpIfNotCarry(l) | RecOp::JumpIfZero(l)
        | RecOp::JumpIfNotZero(l) | RecOp::JumpIfSigned(l) | RecOp::JumpIfNotSigned(l)
        | RecOp::JumpIfCarry(l) | RecOp::DefineLabel(l) => Some(l.0),
        _ => None,
    }
}

#[test]
fn recorded_calls_use_only_what_they_created() {
    // slti $2, $1, 3; lw $3, 0($2); sw $3, 4($2); sltu $4, $3, $2; bgtz $4, +2; addu $5, $4, $3
    let words = vec![0x2822_0003, 0x8c43_0000, 0xac43_0004, 0x0062_202b, 0x1c80_0002, 0x0083_2821];
    let insns = tag_opcodes(&words, 6);
    let rc = create_function(&insns, 0x0000_1000);
    let mut temps = Vec::new();
    let mut labels = Vec::new();
    for op in rc.ops() {
        for n in temps_used(op) {
            assert!(temps.contains(&n), "{:?} uses a scratch value not yet created", op);
        }
        if let Some(l) = label_used(op) {
            assert!(labels.contains(&l), "{:?} uses a label not yet created", op);
        }
        match *op {
            RecOp::NewU32(n) | RecOp::NewU64(n) | RecOp::NewDelayedWrite { id: n, .. } => temps.push(n),
            RecOp::NewLabel(n) | RecOp::NewLongLabel(n) => labels.push(n),
            _ => {},
        }
    }
    assert!(temps.len() >= 8);
    assert!(labels.len() >= 8);
}
