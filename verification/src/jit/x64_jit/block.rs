//! What a compiled instruction leaves for the one after it, and the calls that
//! translate a whole block.
use vstd::prelude::*;
use crate::jit::insn::{Insn, InsnRegisters, use_count};
use crate::register::wrap32;
use super::dynarec::{Recompiler, RecOp, RecLabel, Var, PC, insn_plan, recompilable, well_scoped};

verus! {

/// How compilation goes on after an instruction: with the next one as usual, with
/// the delay slot of a branch, or by leaving the block.
#[derive(Debug, Clone, Copy, PartialEq, Eq, Structural)]
pub enum NextOp {
    Standard,
    DelaySlot,
    Exit,
}

/// The CPU registers the recompiler holds for a block: those its instructions touch
/// (but R0), and PC.
pub open spec fn block_held(insns: Seq<Insn>) -> Set<u32> {
    Set::new(|x: u32| (x != 0 && use_count(insns, x) > 0) || x == PC)
}

/// The calls after an instruction that `next` says how to follow, when the one
/// before it said `this`: pending delayed writes land; before a delay slot the
/// flags (whose carry says whether the jump is taken) are saved; an exit leaves the
/// block; and after a delay slot the block is left if the jump was taken.
pub open spec fn control_ops(next: NextOp, this: NextOp, end: RecLabel) -> Seq<RecOp> {
    (match next {
        NextOp::DelaySlot => seq![RecOp::SaveFlags, RecOp::ProcessDelayedWrite],
        NextOp::Exit => seq![RecOp::ProcessDelayedWrite, RecOp::PrepareForExit, RecOp::Jump(end)],
        NextOp::Standard => seq![RecOp::ProcessDelayedWrite],
    }) + if this == NextOp::DelaySlot {
        seq![RecOp::PrepareForExit, RecOp::LoadFlags, RecOp::JumpIfCarry(end)]
    } else {
        seq![]
    }
}

/// The calls for the first `k` instructions of a block at `initial_pc` (after the
/// exit label, label 0), how the last of them says to go on, and how many scratch
/// values and labels exist after them.
pub open spec fn block_prefix(insns: Seq<Insn>, initial_pc: u32, held: Set<u32>, k: nat) -> (Seq<RecOp>, NextOp, nat, nat)
    decreases k,
{
    if k == 0 || k > insns.len() {
        (seq![], NextOp::Standard, 0, 1)
    } else {
        let prev = block_prefix(insns, initial_pc, held, (k - 1) as nat);
        let insn = insns[k - 1];
        let plan = insn_plan(insn.op_spec(), wrap32(initial_pc + insn.offset_spec()), held, prev.2, prev.3);
        (prev.0 + plan.0 + control_ops(plan.1, prev.1, RecLabel(0)), plan.1, prev.2 + plan.2, prev.3 + plan.3)
    }
}

/// The calls that translate a block of `n` instructions at `initial_pc`: an exit
/// label, each instruction with its control calls, then PC set past the block, the
/// exit preparation and the exit label.
pub open spec fn block_plan(insns: Seq<Insn>, initial_pc: u32) -> Seq<RecOp> {
    let held = block_held(insns);
    seq![RecOp::NewLongLabel(0)] + block_prefix(insns, initial_pc, held, insns.len()).0 + seq![
        RecOp::SetI { dst: Var::Cpu(PC), imm: wrap32(initial_pc + 4 * insns.len()) },
        RecOp::PrepareForExit,
        RecOp::DefineLabel(RecLabel(0)),
    ]
}

proof fn lemma_insn_plan_counts(op: u32, pc: u32, held: Set<u32>, nt: nat, nl: nat)
    ensures
        insn_plan(op, pc, held, nt, nl).2 <= 3,
        insn_plan(op, pc, held, nt, nl).3 <= 3,
{
}

/// Records the calls that translate `tagged_opcodes`, the block at `initial_pc`, on
/// a recompiler that holds the registers the block touches and PC.
pub fn create_function(tagged_opcodes: &Vec<Insn>, initial_pc: u32) -> (r: Recompiler)
    requires
        tagged_opcodes.tagged(),
        tagged_opcodes@.len() < 0x1000_0000,
        forall|k: int|
            0 <= k < tagged_opcodes@.len() ==> recompilable(
                #[trigger] tagged_opcodes@[k].op_spec(),
                block_held(tagged_opcodes@),
            ),
    ensures
        r.held_spec() == block_held(tagged_opcodes@),
        r.ops_spec() == block_plan(tagged_opcodes@, initial_pc),
        r.wf(),
        well_scoped(r.ops_spec()),
{
    let ghost insns = tagged_opcodes@;
    let ghost held = block_held(insns);
    let registers = tagged_opcodes.registers();
    let ghost regs = registers@;
    let mut inputs = registers;
    inputs.push(PC);
    proof {
        regs.lemma_push_to_set_commute(PC);
        assert(inputs@.to_set() =~= held);
    }
    let mut rc = Recompiler::new(inputs);
    let end = rc.new_long_label();
    let mut next_op = NextOp::Standard;
    let n = tagged_opcodes.len();
    let mut k: usize = 0;
    while k < n
        invariant
            n == insns.len(),
            insns == tagged_opcodes@,
            insns.len() < 0x1000_0000,
            k <= n,
            end == RecLabel(0),
            rc.held_spec() == held,
            rc.wf(),
            forall|j: int| 0 <= j < insns.len() ==> recompilable(#[trigger] insns[j].op_spec(), held),
            ({
                let prefix = block_prefix(insns, initial_pc, held, k as nat);
                &&& rc.ops_spec() == seq![RecOp::NewLongLabel(0)] + prefix.0
                &&& next_op == prefix.1
                &&& rc.temps() == prefix.2
                &&& rc.labels() == prefix.3
                &&& prefix.2 <= 3 * k
                &&& prefix.3 <= 1 + 3 * k
                &&& 1 <= prefix.3
            }),
        decreases n - k,
    {
        let this_op = next_op;
        let ghost prev = block_prefix(insns, initial_pc, held, k as nat);
        proof {
            lemma_insn_plan_counts(
                insns[k as int].op_spec(),
                wrap32(initial_pc + insns[k as int].offset_spec()),
                held,
                prev.2,
                prev.3,
            );
        }
        next_op = rc.emit_insn(&tagged_opcodes[k], initial_pc);
        let ghost mid = rc.ops_spec();
        match next_op {
            NextOp::DelaySlot => {
                rc.record(RecOp::SaveFlags);
                rc.record(RecOp::ProcessDelayedWrite);
            },
            NextOp::Exit => {
                rc.record(RecOp::ProcessDelayedWrite);
                rc.record(RecOp::PrepareForExit);
                rc.record(RecOp::Jump(end));
            },
            NextOp::Standard => {
                rc.record(RecOp::ProcessDelayedWrite);
            },
        }
        match this_op {
            NextOp::DelaySlot => {
                rc.record(RecOp::PrepareForExit);
                rc.record(RecOp::LoadFlags);
                rc.record(RecOp::JumpIfCarry(end));
            },
            _ => {},
        }
        proof {
            assert(rc.ops_spec() =~= mid + control_ops(next_op, this_op, RecLabel(0)));
            assert(seq![RecOp::NewLongLabel(0)] + block_prefix(insns, initial_pc, held, (k + 1) as nat).0
                =~= rc.ops_spec());
        }
        k = k + 1;
    }
    let last = initial_pc.wrapping_add(4 * (n as u32));
    proof {
        let m: int = 0x1_0000_0000;
        vstd::arithmetic::div_mod::lemma_mod_twice(initial_pc + 4 * n, m);
        assert(last == wrap32(initial_pc + 4 * insns.len()));
    }
    rc.record(RecOp::SetI { dst: Var::Cpu(PC), imm: last });
    rc.record(RecOp::PrepareForExit);
    rc.record(RecOp::DefineLabel(end));
    assert(rc.ops_spec() =~= block_plan(insns, initial_pc));
    proof {
        rc.lemma_recorded_calls_are_scoped();
    }
    rc
}

} // verus!
