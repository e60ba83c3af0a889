//! Cached blocks and the constant folding done when a block is compiled.
use vstd::prelude::*;
use crate::common::{get_imm16, get_primary_field, get_rt, primary_field, rt_field, imm16_field};
use crate::interpreter::imm_alu;
use crate::interpreter::spec::imm_spec;
use crate::jit::insn::{Insn, branch_delay_spec};
use super::stub::Stub;
use crate::interpreter::spec::{executes, gpr_of};
use crate::interpreter::Executed;
use crate::console::{Console, DelayedWrite};
use crate::console::cop0::Cop0;
use crate::console::gte::GTE;

verus! {

/// The constant table before any instruction: no register is known.
pub open spec fn unknown_table() -> Seq<Option<u32>> {
    Seq::new(32, |i: int| None::<u32>)
}

/// The stubs that an instruction whose result is not folded becomes: a write to R0
/// is dropped, unless the instruction sits in the delay slot of the one before it,
/// where a stub that does nothing keeps its place.
pub open spec fn default_stubs(insn: Insn, prev: Option<u32>) -> Seq<Stub> {
    match insn.output_spec() {
        Some(o) => if o == 0 {
            match prev {
                Some(p) => if branch_delay_spec(p) {
                    seq![Stub::Nop]
                } else {
                    seq![]
                },
                None => seq![],
            }
        } else {
            seq![Stub::Opcode(insn.op_spec())]
        },
        None => seq![Stub::Opcode(insn.op_spec())],
    }
}

/// One step of constant folding: R0 is known to be zero; an immediate ALU instruction
/// (ADDIU to XORI) whose source is known becomes a constant load of its result; LUI
/// makes its output known; any other write makes its output unknown. `prev` is the
/// instruction before, if any.
pub open spec fn fold_step(table: Seq<Option<u32>>, insn: Insn, prev: Option<u32>) -> (
    Seq<Option<u32>>,
    Seq<Stub>,
) {
    let table = table.update(0, Some(0u32));
    let op = insn.op_spec();
    let p = primary_field(op);
    if 0x09 <= p <= 0x0e {
        let input = insn.inputs_spec()[0];
        let output = insn.output_spec()->0;
        match table[input as int] {
            Some(c) => {
                let v = imm_spec(p, c, imm16_field(op));
                (
                    table.update(output as int, Some(v)),
                    seq![Stub::LoadConstant { register: rt_field(op), value: v }],
                )
            },
            None => (table.update(output as int, None), seq![Stub::Opcode(op)]),
        }
    } else if p == 0x0f {
        let output = insn.output_spec()->0;
        (table.update(output as int, Some((imm16_field(op) * 0x1_0000) as u32)), seq![Stub::Opcode(op)])
    } else {
        let t = match insn.output_spec() {
            Some(o) => table.update(o as int, None),
            None => table,
        };
        (t, default_stubs(insn, prev))
    }
}

/// A constant load folded from an instruction writes the value that the interpreter
/// writes when it executes that instruction, whenever the registers hold what the
/// constant table records.
pub proof fn lemma_folded_constant_matches_interpreter(
    table: Seq<Option<u32>>,
    insn: Insn,
    prev: Option<u32>,
    regs: Seq<u32>,
    queue: Seq<DelayedWrite>,
    cop0: Cop0,
    gte: GTE,
    post: Console,
    r: Executed,
)
    requires
        insn.wf(),
        table.len() == 32,
        regs.len() == 35,
        forall|i: u32|
            i < 32 && (#[trigger] table[i as int]) is Some ==> gpr_of(regs, i) == table[i as int]->0,
        executes(insn.op_spec(), regs, queue, cop0, gte, post, r),
    ensures
        forall|k: int|
            0 <= k < fold_step(table, insn, prev).1.len() ==> ((#[trigger] fold_step(
                table,
                insn,
                prev,
            ).1[k]) matches Stub::LoadConstant { register, value } ==> register != 0 ==> gpr_of(
                post.r3000@,
                register,
            ) == value),
{
    let op = insn.op_spec();
    let p = primary_field(op);
    let t = table.update(0, Some(0u32));
    if 0x09 <= p <= 0x0e {
        let a = insn.inputs_spec()[0];
        assert(insn.dependencies_spec()[0] == a);
        if t[a as int] is Some && a != 0 {
            assert(table[a as int] is Some);
        }
    }
}

/// The constant table and the stubs after folding the first `n` instructions.
pub open spec fn fold_prefix(insns: Seq<Insn>, n: nat) -> (Seq<Option<u32>>, Seq<Stub>)
    decreases n,
{
    if n == 0 || n > insns.len() {
        (unknown_table(), seq![])
    } else {
        let (table, stubs) = fold_prefix(insns, (n - 1) as nat);
        let prev = if n >= 2 {
            Some(insns[n - 2].op_spec())
        } else {
            None
        };
        let (table2, more) = fold_step(table, insns[n - 1], prev);
        (table2, stubs + more)
    }
}

/// The stubs of an optimized block.
pub open spec fn optimized_stubs(insns: Seq<Insn>) -> Seq<Stub> {
    fold_prefix(insns, insns.len()).1
}

/// Folding keeps a table entry for every register.
proof fn lemma_fold_table_len(insns: Seq<Insn>, n: nat)
    requires
        forall|k: int| 0 <= k < insns.len() ==> (#[trigger] insns[k]).wf(),
    ensures
        fold_prefix(insns, n).0.len() == 32,
    decreases n,
{
    if n > 0 && n <= insns.len() {
        lemma_fold_table_len(insns, (n - 1) as nat);
        let k = n - 1;
        assert(insns[k as int].wf());
        assert(insns[k as int].dependencies_spec().len() > 0 ==> insns[k as int].dependencies_spec()[0] < 32);
    }
}

/// Constant folding never makes a block longer: an optimized block has at most one
/// stub per instruction.
pub proof fn lemma_optimized_stubs_no_longer(insns: Seq<Insn>, n: nat)
    ensures
        fold_prefix(insns, n).1.len() <= n,
    decreases n,
{
    if n > 0 && n <= insns.len() {
        lemma_optimized_stubs_no_longer(insns, (n - 1) as nat);
    }
}

/// A compiled block: its stubs, the physical address of its last instruction (the
/// delay slot or a SYSCALL), and how many instructions it stands for.
pub struct Block {
    stubs: Vec<Stub>,
    final_pc: u32,
    nominal_len: u32,
}

impl Block {
    pub closed spec fn stubs_spec(&self) -> Seq<Stub> {
        self.stubs@
    }

    pub closed spec fn final_pc_spec(&self) -> u32 {
        self.final_pc
    }

    pub closed spec fn nominal_len_spec(&self) -> u32 {
        self.nominal_len
    }

    /// A block whose stubs run the instructions as they stand.
    pub fn new(tagged_opcodes: &Vec<Insn>, final_pc: u32, nominal_len: u32) -> (r: Self)
        ensures
            r.stubs_spec() == tagged_opcodes@.map_values(|i: Insn| Stub::Opcode(i.op_spec())),
            r.final_pc_spec() == final_pc,
            r.nominal_len_spec() == nominal_len,
    {
        let stubs = Block::create_stubs(tagged_opcodes);
        Block { stubs, final_pc, nominal_len }
    }

    /// A block whose stubs fold the constants that the block computes.
    pub fn new_optimized(tagged_opcodes: &Vec<Insn>, final_pc: u32, nominal_len: u32) -> (r: Self)
        requires
            forall|k: int| 0 <= k < tagged_opcodes@.len() ==> (#[trigger] tagged_opcodes@[k]).wf(),
        ensures
            r.stubs_spec() == optimized_stubs(tagged_opcodes@),
            r.final_pc_spec() == final_pc,
            r.nominal_len_spec() == nominal_len,
    {
        let stubs = Block::create_optimized_stubs(tagged_opcodes);
        Block { stubs, final_pc, nominal_len }
    }

    /// One stub per instruction, each running it as it stands.
    pub fn create_stubs(tagged_opcodes: &Vec<Insn>) -> (r: Vec<Stub>)
        ensures
            r@ == tagged_opcodes@.map_values(|i: Insn| Stub::Opcode(i.op_spec())),
    {
        let mut ret: Vec<Stub> = Vec::new();
        let mut k: usize = 0;
        while k < tagged_opcodes.len()
            invariant
                k <= tagged_opcodes@.len(),
                ret@ == tagged_opcodes@.subrange(0, k as int).map_values(
                    |i: Insn| Stub::Opcode(i.op_spec()),
                ),
            decreases tagged_opcodes@.len() - k,
        {
            ret.push(Stub::new(&tagged_opcodes[k]));
            assert(tagged_opcodes@.subrange(0, k + 1).map_values(|i: Insn| Stub::Opcode(i.op_spec()))
                =~= tagged_opcodes@.subrange(0, k as int).map_values(|i: Insn| Stub::Opcode(i.op_spec())).push(
                Stub::Opcode(tagged_opcodes@[k as int].op_spec())));
            k = k + 1;
        }
        assert(tagged_opcodes@.subrange(0, k as int) =~= tagged_opcodes@);
        ret
    }

    /// Compiles a block with constant folding (see `fold_step`).
    pub fn create_optimized_stubs(tagged_opcodes: &Vec<Insn>) -> (r: Vec<Stub>)
        requires
            forall|k: int| 0 <= k < tagged_opcodes@.len() ==> (#[trigger] tagged_opcodes@[k]).wf(),
        ensures
            r@ == optimized_stubs(tagged_opcodes@),
            r@.len() <= tagged_opcodes@.len(),
    {
        let ghost insns = tagged_opcodes@;
        let mut ret: Vec<Stub> = Vec::new();
        let mut table: [Option<u32>; 32] = [None; 32];
        assert(table@ =~= unknown_table());
        let mut n: usize = 0;
        while n < tagged_opcodes.len()
            invariant
                insns == tagged_opcodes@,
                n <= insns.len(),
                forall|k: int| 0 <= k < insns.len() ==> (#[trigger] insns[k]).wf(),
                (table@, ret@) == fold_prefix(insns, n as nat),
            decreases insns.len() - n,
        {
            let insn = &tagged_opcodes[n];
            proof {
                lemma_fold_table_len(insns, n as nat);
                assert(insns[n as int].wf());
            }
            let ghost prev: Option<u32> = if n >= 1 {
                Some(insns[n - 1].op_spec())
            } else {
                None
            };
            let ghost expected = fold_step(table@, *insn, prev);
            table[0] = Some(0);
            let op = insn.op();
            let p = get_primary_field(op);
            let imm16 = get_imm16(op);
            if 0x09 <= p && p <= 0x0e {
                let inputs = insn.inputs();
                assert(inputs@.len() == 1);
                assert(insn.dependencies_spec()[0] == inputs@[0]);
                let input = inputs[0] as usize;
                let output = match insn.output() {
                    Some(o) => o,
                    None => 0,
                };
                assert(insn.dependencies_spec()[1] == output);
                match table[input] {
                    Some(constant) => {
                        let result = imm_alu(p, constant, imm16);
                        let t = get_rt(op);
                        ret.push(Stub::LoadConstant { register: t, value: result });
                        table[output as usize] = Some(result);
                    },
                    None => {
                        ret.push(Stub::Opcode(op));
                        table[output as usize] = None;
                    },
                }
            } else if p == 0x0f {
                let output = match insn.output() {
                    Some(o) => o,
                    None => 0,
                };
                assert(insn.dependencies_spec()[0] == output);
                let v = imm_alu(p, 0, imm16);
                table[output as usize] = Some(v);
                ret.push(Stub::new(insn));
            } else {
                match insn.output() {
                    Some(output) => {
                        let ghost deps = insn.dependencies_spec();
                        assert(deps[deps.len() - 1] == output);
                        table[output as usize] = None;
                        if output == 0 {
                            if n != 0 {
                                let prev_op = tagged_opcodes[n - 1].op();
                                proof {
                                    assert(insns[n - 1].wf());
                                }
                                if Insn::has_branch_delay_slot(prev_op) {
                                    ret.push(Stub::Nop);
                                }
                            }
                        } else {
                            ret.push(Stub::new(insn));
                        }
                    },
                    None => {
                        ret.push(Stub::new(insn));
                    },
                }
            }
            proof {
                assert(table@ =~= expected.0);
                assert(ret@ =~= fold_prefix(insns, n as nat).1 + expected.1);
            }
            n = n + 1;
        }
        proof {
            lemma_optimized_stubs_no_longer(insns, insns.len());
        }
        ret
    }

    pub fn stubs(&self) -> (r: &Vec<Stub>)
        ensures
            r@ == self.stubs_spec(),
    {
        &self.stubs
    }

    pub fn final_pc(&self) -> (r: u32)
        ensures
            r == self.final_pc_spec(),
    {
        self.final_pc
    }

    pub fn nominal_len(&self) -> (r: u32)
        ensures
            r == self.nominal_len_spec(),
    {
        self.nominal_len
    }
}

} // verus!
