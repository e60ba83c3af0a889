//! Constant folding over the straight-line part of a dummy JIT stub.
use vstd::prelude::*;
use crate::common::{get_imm16, get_primary_field, primary_field, imm16_field};
use crate::interpreter::imm_alu;
use crate::interpreter::spec::imm_spec;
use crate::jit::caching_interpreter::stub::Stub as Operation;
use crate::jit::caching_interpreter::block::unknown_table;
use super::Dummy_JIT;
use super::insn_ir::{Insn, Kind, tag_insn_spec};
use crate::interpreter::spec::{executes, gpr_of};
use crate::interpreter::Executed;
use crate::console::{Console, DelayedWrite};
use crate::console::cop0::Cop0;
use crate::console::gte::GTE;

verus! {

/// An instruction and its tags, as `tag_insn` gave them.
pub open spec fn tagged_pair(op: u32, tag: Insn) -> bool {
    &&& tag.wf()
    &&& tag_insn_spec(op) == Some(Some(tag.tags()))
}

/// One step of the dummy JIT's constant folding: R0 is known to be zero; LUI makes its
/// output known; an immediate ALU instruction (ADDIU to XORI) whose input is known
/// becomes a store of its result; any other write makes its output unknown.
pub open spec fn dummy_fold_step(table: Seq<Option<u32>>, op: u32, tag: Insn) -> (
    Seq<Option<u32>>,
    Operation,
) {
    let table = table.update(0, Some(0u32));
    let p = primary_field(op);
    let n = tag.inputs_spec().len();
    match tag.output_spec() {
        None => (table, Operation::Opcode(op)),
        Some(o) => if n == 0 && tag.kind_spec() == Kind::Immediate {
            (table.update(o as int, Some((imm16_field(op) * 0x1_0000) as u32)), Operation::Opcode(op))
        } else if n == 1 && 0x09 <= p <= 0x0e {
            match table[tag.inputs_spec()[0] as int] {
                Some(c) => {
                    let v = imm_spec(p, c, imm16_field(op));
                    (table.update(o as int, Some(v)), Operation::LoadConstant { register: o, value: v })
                },
                None => (table.update(o as int, None), Operation::Opcode(op)),
            }
        } else {
            (table.update(o as int, None), Operation::Opcode(op))
        },
    }
}

/// A constant load folded from an instruction writes the value that the interpreter
/// writes when it executes that instruction, whenever the registers hold what the
/// constant table records.
pub proof fn lemma_dummy_folded_constant_matches_interpreter(
    table: Seq<Option<u32>>,
    op: u32,
    tag: Insn,
    regs: Seq<u32>,
    queue: Seq<DelayedWrite>,
    cop0: Cop0,
    gte: GTE,
    post: Console,
    r: Executed,
)
    requires
        tagged_pair(op, tag),
        table.len() == 32,
        regs.len() == 35,
        forall|i: u32|
            i < 32 && (#[trigger] table[i as int]) is Some ==> gpr_of(regs, i) == table[i as int]->0,
        executes(op, regs, queue, cop0, gte, post, r),
    ensures
        dummy_fold_step(table, op, tag).1 matches Operation::LoadConstant { register, value }
            ==> register != 0 ==> gpr_of(post.r3000@, register) == value,
{
    let p = primary_field(op);
    let t = table.update(0, Some(0u32));
    if 0x09 <= p <= 0x0e && tag.inputs_spec().len() == 1 {
        let a = tag.inputs_spec()[0];
        if t[a as int] is Some && a != 0 {
            assert(table[a as int] is Some);
        }
    }
}

/// The constant table and the operations after the first `n` instructions.
pub open spec fn dummy_fold_prefix(ops: Seq<(u32, Insn)>, n: nat) -> (Seq<Option<u32>>, Seq<Operation>)
    decreases n,
{
    if n == 0 || n > ops.len() {
        (unknown_table(), seq![])
    } else {
        let (table, done) = dummy_fold_prefix(ops, (n - 1) as nat);
        let (table2, next) = dummy_fold_step(table, ops[n - 1].0, ops[n - 1].1);
        (table2, done.push(next))
    }
}

/// The dummy JIT's folding replaces instructions one for one: the stub has exactly as
/// many operations as there were instructions.
pub proof fn lemma_dummy_fold_one_for_one(ops: Seq<(u32, Insn)>, n: nat)
    requires
        n <= ops.len(),
    ensures
        dummy_fold_prefix(ops, n).1.len() == n,
    decreases n,
{
    if n > 0 {
        lemma_dummy_fold_one_for_one(ops, (n - 1) as nat);
    }
}

proof fn lemma_dummy_table_len(ops: Seq<(u32, Insn)>, n: nat)
    requires
        forall|k: int| 0 <= k < ops.len() ==> tagged_pair(#[trigger] ops[k].0, ops[k].1),
    ensures
        dummy_fold_prefix(ops, n).0.len() == 32,
    decreases n,
{
    if n > 0 && n <= ops.len() {
        lemma_dummy_table_len(ops, (n - 1) as nat);
        assert(tagged_pair(ops[n - 1].0, ops[n - 1].1));
    }
}

impl Dummy_JIT {
    /// The stub's operations with every instruction run as it stands.
    pub fn compile_stub_as_is(&self, operations: &Vec<(u32, Insn)>) -> (r: Vec<Operation>)
        ensures
            r@ == operations@.map_values(|p: (u32, Insn)| Operation::Opcode(p.0)),
    {
        let mut ret: Vec<Operation> = Vec::new();
        let mut k: usize = 0;
        while k < operations.len()
            invariant
                k <= operations@.len(),
                ret@ == operations@.subrange(0, k as int).map_values(
                    |p: (u32, Insn)| Operation::Opcode(p.0),
                ),
            decreases operations@.len() - k,
        {
            ret.push(Operation::Opcode(operations[k].0));
            assert(operations@.subrange(0, k + 1).map_values(|p: (u32, Insn)| Operation::Opcode(p.0))
                =~= operations@.subrange(0, k as int).map_values(|p: (u32, Insn)| Operation::Opcode(p.0)).push(
                Operation::Opcode(operations@[k as int].0)));
            k = k + 1;
        }
        assert(operations@.subrange(0, k as int) =~= operations@);
        ret
    }

    /// The stub's operations with constants folded (see `dummy_fold_step`).
    pub fn compile_optimized_stub(&self, operations: &Vec<(u32, Insn)>) -> (r: Vec<Operation>)
        requires
            forall|k: int|
                0 <= k < operations@.len() ==> tagged_pair(#[trigger] operations@[k].0, operations@[k].1),
        ensures
            r@ == dummy_fold_prefix(operations@, operations@.len()).1,
            r@.len() == operations@.len(),
    {
        let ghost ops = operations@;
        let mut ret: Vec<Operation> = Vec::new();
        let mut table: [Option<u32>; 32] = [None; 32];
        assert(table@ =~= unknown_table());
        let mut n: usize = 0;
        while n < operations.len()
            invariant
                ops == operations@,
                n <= ops.len(),
                forall|k: int| 0 <= k < ops.len() ==> tagged_pair(#[trigger] ops[k].0, ops[k].1),
                (table@, ret@) == dummy_fold_prefix(ops, n as nat),
            decreases ops.len() - n,
        {
            let op = operations[n].0;
            let tag = &operations[n].1;
            proof {
                lemma_dummy_table_len(ops, n as nat);
                assert(tagged_pair(ops[n as int].0, ops[n as int].1));
            }
            let ghost expected = dummy_fold_step(table@, op, *tag);
            table[0] = Some(0);
            let p = get_primary_field(op);
            let imm16 = get_imm16(op);
            let count = tag.inputs_len();
            match tag.output() {
                None => {
                    ret.push(Operation::Opcode(op));
                },
                Some(output) => {
                    if count == 0 && tag.kind() == Kind::Immediate {
                        //LUI
                        let v = imm_alu(0x0f, 0, imm16);
                        table[output as usize] = Some(v);
                        ret.push(Operation::Opcode(op));
                    } else if count == 1 && 0x09 <= p && p <= 0x0e {
                        let input = tag.input_i(0);
                        match table[input] {
                            Some(constant) => {
                                let result = imm_alu(p, constant, imm16);
                                ret.push(Operation::LoadConstant { register: output, value: result });
                                table[output as usize] = Some(result);
                            },
                            None => {
                                table[output as usize] = None;
                                ret.push(Operation::Opcode(op));
                            },
                        }
                    } else {
                        table[output as usize] = None;
                        ret.push(Operation::Opcode(op));
                    }
                },
            }
            proof {
                assert(table@ =~= expected.0);
            }
            n = n + 1;
        }
        proof {
            lemma_dummy_fold_one_for_one(ops, ops.len());
        }
        ret
    }
}

} // verus!
