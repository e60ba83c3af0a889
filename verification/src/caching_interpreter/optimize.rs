//! Constant folding for the caching interpreter: instructions whose operands are
//! known when the block is compiled become constant loads, and memory accesses at
//! a known address become accesses to that address.
use vstd::prelude::*;
use crate::common::{get_imm16, get_primary_field, get_secondary_field, get_rt, primary_field, secondary_field, rt_field, imm5_field, imm16_field};
use crate::register::{wrap32, sign_extend_16, half_sign_extended};
use crate::interpreter::{Interpreter, Width, imm_alu};
use crate::interpreter::spec::{imm_spec, special_spec, access_spec, gpr_of};
use crate::interpreter::MemAccess;
use crate::common::rs_field;
use crate::interpreter::spec::executes;
use crate::interpreter::Executed;
use crate::console::{Console, DelayedWrite};
use crate::console::cop0::Cop0;
use crate::console::gte::GTE;
use crate::dummy_jit::insn_ir::tag_insn_spec;
use crate::jit::caching_interpreter::block::unknown_table;
use crate::dummy_jit::insn_ir::Insn;
use super::CachingInterpreter;

verus! {

/// What an instruction of a block is compiled to.
#[derive(Debug, Clone, Copy, PartialEq, Eq, Structural)]
pub enum Compiled {
    /// The instruction, executed as it stands.
    Opcode(u32),
    /// A write of a value known at compile time into a register.
    StoreConstant { register: u32, value: u32 },
    /// A load from an address known at compile time into register `target`.
    ReadConstant { width: Width, address: u32, target: u32 },
    /// A store of register `source` to an address known at compile time.
    WriteConstant { width: Width, address: u32, source: u32 },
}

/// The SPECIAL functions whose result folds: ADDU, SUBU, AND, OR, XOR, NOR, SLT, SLTU.
pub open spec fn folds_special(f: u32) -> bool {
    f == 0x21 || (0x23 <= f <= 0x27) || f == 0x2a || f == 0x2b
}

/// The width of the loads (LW, LBU, LHU) and stores (SB, SH, SW) that are folded.
pub open spec fn access_width(p: u32) -> Width {
    if p == 0x24 || p == 0x28 {
        Width::Byte
    } else if p == 0x25 || p == 0x29 {
        Width::Half
    } else {
        Width::Word
    }
}

/// The tags that folding reads are there: two inputs for the folded SPECIAL functions
/// and the stores, one for the immediate ALU instructions and the loads, and an output
/// wherever one is written.
pub open spec fn fold_ready(op: u32, tag: Insn) -> bool {
    let p = primary_field(op);
    let f = secondary_field(op);
    let n = tag.inputs_spec().len();
    &&& tag.wf()
    &&& p == 0 && folds_special(f) ==> n >= 2 && tag.output_spec() is Some
    &&& (0x09 <= p <= 0x0e || p == 0x23 || p == 0x24 || p == 0x25) ==> n >= 1 && tag.output_spec() is Some
    &&& p == 0x0f ==> tag.output_spec() is Some
    &&& (p == 0x28 || p == 0x29 || p == 0x2b) ==> n >= 2
}

/// The address of a load or store whose base register holds `base`.
pub open spec fn target_address(base: u32, op: u32) -> u32 {
    wrap32(base + sign_extend_16(imm16_field(op)))
}

/// One step of folding, from the constant table and the code so far. `prev` is the
/// instruction before and its tags, if any: a folded immediate ALU instruction right
/// after a LUI that wrote the same register replaces that LUI's constant load.
pub open spec fn ci_fold_step(
    table: Seq<Option<u32>>,
    done: Seq<Compiled>,
    op: u32,
    tag: Insn,
    prev: Option<(u32, Insn)>,
) -> (Seq<Option<u32>>, Seq<Compiled>) {
    let table = table.update(0, Some(0u32));
    let p = primary_field(op);
    let f = secondary_field(op);
    let out = tag.output_spec();
    let cleared = match out {
        Some(o) => table.update(o as int, None),
        None => table,
    };
    if p == 0 && folds_special(f) {
        let o = out->0;
        match (table[tag.inputs_spec()[0] as int], table[tag.inputs_spec()[1] as int]) {
            (Some(c1), Some(c2)) => {
                let v = special_spec(f, c1, c2, imm5_field(op), 0, 0);
                (table.update(o as int, Some(v)), done.push(Compiled::StoreConstant { register: o, value: v }))
            },
            _ => (cleared, done.push(Compiled::Opcode(op))),
        }
    } else if 0x09 <= p <= 0x0e {
        let o = out->0;
        match table[tag.inputs_spec()[0] as int] {
            Some(c) => {
                let v = imm_spec(p, c, imm16_field(op));
                let replaces_lui = match prev {
                    Some(pr) => primary_field(pr.0) == 0x0f && pr.1.output_spec() == Some(o),
                    None => false,
                };
                let kept = if replaces_lui {
                    done.drop_last()
                } else {
                    done
                };
                (table.update(o as int, Some(v)), kept.push(Compiled::StoreConstant { register: o, value: v }))
            },
            None => (cleared, done.push(Compiled::Opcode(op))),
        }
    } else if p == 0x0f {
        let o = out->0;
        let v = (imm16_field(op) * 0x1_0000) as u32;
        (table.update(o as int, Some(v)), done.push(Compiled::StoreConstant { register: o, value: v }))
    } else if p == 0x23 || p == 0x24 || p == 0x25 {
        match cleared[tag.inputs_spec()[0] as int] {
            Some(base) => (
                cleared,
                done.push(
                    Compiled::ReadConstant {
                        width: access_width(p),
                        address: target_address(base, op),
                        target: rt_field(op),
                    },
                ),
            ),
            None => (cleared, done.push(Compiled::Opcode(op))),
        }
    } else if p == 0x28 || p == 0x29 || p == 0x2b {
        match table[tag.inputs_spec()[0] as int] {
            Some(base) => (
                table,
                done.push(
                    Compiled::WriteConstant {
                        width: access_width(p),
                        address: target_address(base, op),
                        source: rt_field(op),
                    },
                ),
            ),
            None => (table, done.push(Compiled::Opcode(op))),
        }
    } else {
        (cleared, done.push(Compiled::Opcode(op)))
    }
}

/// A load or store folded to a known address makes the access that the interpreter
/// makes for the same instruction, whenever the registers hold what the constant
/// table records: the same address and width, from or into the same register.
pub proof fn lemma_folded_access_matches_interpreter(
    table: Seq<Option<u32>>,
    done: Seq<Compiled>,
    op: u32,
    tag: Insn,
    prev: Option<(u32, Insn)>,
    regs: Seq<u32>,
)
    requires
        fold_ready(op, tag),
        table.len() == 32,
        tag.inputs_spec().len() >= 1 ==> tag.inputs_spec()[0] == rs_field(op),
        forall|i: u32|
            i < 32 && (#[trigger] table[i as int]) is Some ==> gpr_of(regs, i) == table[i as int]->0,
    ensures
        ({
            let code = ci_fold_step(table, done, op, tag, prev).1;
            &&& code.last() matches Compiled::WriteConstant { width, address, source }
                ==> access_spec(op, regs, false) == MemAccess::Store {
                address,
                width,
                value: gpr_of(regs, source),
            }
            &&& code.last() matches Compiled::ReadConstant { width, address, target }
                ==> access_spec(op, regs, false) == MemAccess::Load {
                address,
                width,
                signed: false,
                target,
            }
        }),
{
    let p = primary_field(op);
    if p == 0x23 || p == 0x24 || p == 0x25 || p == 0x28 || p == 0x29 || p == 0x2b {
        let rs = rs_field(op);
        assert(tag.inputs_spec()[0] == rs);
        let t = table.update(0, Some(0u32));
        if t[rs as int] is Some {
            assert(rs < 32);
            if rs != 0 {
                assert(table[rs as int] is Some);
            }
            assert(gpr_of(regs, rs) == t[rs as int]->0);
        }
    }
}

/// A value folded into a constant write is the value that the interpreter writes
/// when it executes the instruction, whenever the registers hold what the constant
/// table records: the folded register is the instruction's destination and ends up
/// holding the folded value.
pub proof fn lemma_folded_value_matches_interpreter(
    table: Seq<Option<u32>>,
    done: Seq<Compiled>,
    op: u32,
    tag: Insn,
    prev: Option<(u32, Insn)>,
    regs: Seq<u32>,
    queue: Seq<DelayedWrite>,
    cop0: Cop0,
    gte: GTE,
    post: Console,
    r: Executed,
)
    requires
        fold_ready(op, tag),
        table.len() == 32,
        regs.len() == 35,
        primary_field(op) == 0 || 0x09 <= primary_field(op) <= 0x0f ==> tag_insn_spec(op) == Some(
            Some(tag.tags()),
        ),
        forall|i: u32|
            i < 32 && (#[trigger] table[i as int]) is Some ==> gpr_of(regs, i) == table[i as int]->0,
        executes(op, regs, queue, cop0, gte, post, r),
    ensures
        ci_fold_step(table, done, op, tag, prev).1.last() matches Compiled::StoreConstant {
            register,
            value,
        } ==> register != 0 ==> gpr_of(post.r3000@, register) == value,
{
    let p = primary_field(op);
    let f = secondary_field(op);
    let t = table.update(0, Some(0u32));
    if p == 0 && folds_special(f) {
        let a = tag.inputs_spec()[0];
        let b = tag.inputs_spec()[1];
        if t[a as int] is Some && t[b as int] is Some {
            if a != 0 {
                assert(table[a as int] is Some);
            }
            if b != 0 {
                assert(table[b as int] is Some);
            }
        }
    } else if 0x09 <= p <= 0x0e {
        let a = tag.inputs_spec()[0];
        if t[a as int] is Some && a != 0 {
            assert(table[a as int] is Some);
        }
    }
}

/// The constant table and the code after folding the first `n` instructions.
pub open spec fn ci_fold_prefix(ops: Seq<(u32, Insn)>, n: nat) -> (Seq<Option<u32>>, Seq<Compiled>)
    decreases n,
{
    if n == 0 || n > ops.len() {
        (unknown_table(), seq![])
    } else {
        let (table, done) = ci_fold_prefix(ops, (n - 1) as nat);
        let prev = if n >= 2 {
            Some(ops[n - 2])
        } else {
            None
        };
        ci_fold_step(table, done, ops[n - 1].0, ops[n - 1].1, prev)
    }
}

/// Folding never lengthens the code: at most one compiled step per instruction.
pub proof fn lemma_ci_fold_no_longer(ops: Seq<(u32, Insn)>, n: nat)
    ensures
        ci_fold_prefix(ops, n).1.len() <= n,
    decreases n,
{
    if n > 0 && n <= ops.len() {
        lemma_ci_fold_no_longer(ops, (n - 1) as nat);
    }
}

proof fn lemma_ci_table_len(ops: Seq<(u32, Insn)>, n: nat)
    requires
        forall|k: int| 0 <= k < ops.len() ==> fold_ready(#[trigger] ops[k].0, ops[k].1),
    ensures
        ci_fold_prefix(ops, n).0.len() == 32,
    decreases n,
{
    if n > 0 && n <= ops.len() {
        lemma_ci_table_len(ops, (n - 1) as nat);
        assert(fold_ready(ops[n - 1].0, ops[n - 1].1));
    }
}

/// The address of a load or store at a known base.
fn constant_address(base: u32, op: u32) -> (r: u32)
    ensures
        r == target_address(base, op),
{
    base.wrapping_add(half_sign_extended(get_imm16(op)))
}

impl CachingInterpreter {
    /// Every instruction compiled as it stands.
    pub fn compile_stub(&self, operations: &Vec<(u32, Insn)>) -> (r: Vec<Compiled>)
        ensures
            r@ == operations@.map_values(|p: (u32, Insn)| Compiled::Opcode(p.0)),
    {
        let mut ret: Vec<Compiled> = Vec::new();
        let mut k: usize = 0;
        while k < operations.len()
            invariant
                k <= operations@.len(),
                ret@ == operations@.subrange(0, k as int).map_values(
                    |p: (u32, Insn)| Compiled::Opcode(p.0),
                ),
            decreases operations@.len() - k,
        {
            ret.push(Compiled::Opcode(operations[k].0));
            assert(operations@.subrange(0, k + 1).map_values(|p: (u32, Insn)| Compiled::Opcode(p.0))
                =~= operations@.subrange(0, k as int).map_values(|p: (u32, Insn)| Compiled::Opcode(p.0)).push(
                Compiled::Opcode(operations@[k as int].0)));
            k = k + 1;
        }
        assert(operations@.subrange(0, k as int) =~= operations@);
        ret
    }

    /// The instructions compiled with constants folded (see `ci_fold_step`).
    pub fn compile_optimized_stub(&self, operations: &Vec<(u32, Insn)>) -> (r: Vec<Compiled>)
        requires
            forall|k: int|
                0 <= k < operations@.len() ==> fold_ready(#[trigger] operations@[k].0, operations@[k].1),
        ensures
            r@ == ci_fold_prefix(operations@, operations@.len()).1,
            r@.len() <= operations@.len(),
    {
        let ghost ops = operations@;
        let mut ret: Vec<Compiled> = Vec::new();
        let mut table: [Option<u32>; 32] = [None; 32];
        assert(table@ =~= unknown_table());
        let mut i: usize = 0;
        while i < operations.len()
            invariant
                ops == operations@,
                i <= ops.len(),
                forall|k: int| 0 <= k < ops.len() ==> fold_ready(#[trigger] ops[k].0, ops[k].1),
                (table@, ret@) == ci_fold_prefix(ops, i as nat),
            decreases ops.len() - i,
        {
            let op = operations[i].0;
            let tag = &operations[i].1;
            proof {
                lemma_ci_table_len(ops, i as nat);
                assert(fold_ready(ops[i as int].0, ops[i as int].1));
            }
            let ghost prev: Option<(u32, Insn)> = if i >= 1 {
                Some(ops[i - 1])
            } else {
                None
            };
            let ghost expected = ci_fold_step(table@, ret@, op, *tag, prev);
            table[0] = Some(0);
            let opcode = get_primary_field(op);
            if opcode == 0x00 {
                let second = get_secondary_field(op);
                if second == 0x21 || (0x23 <= second && second <= 0x27) || second == 0x2a || second == 0x2b {
                    let a = table[tag.input_i(0)];
                    let b = table[tag.input_i(1)];
                    let output = match tag.output() {
                        Some(o) => o,
                        None => 0,
                    };
                    match (a, b) {
                        (Some(c1), Some(c2)) => {
                            let result = Interpreter::special_value(op, c1, c2, 0, 0);
                            ret.push(Compiled::StoreConstant { register: output, value: result });
                            table[output as usize] = Some(result);
                        },
                        _ => {
                            table[output as usize] = None;
                            ret.push(Compiled::Opcode(op));
                        },
                    }
                } else {
                    match tag.output() {
                        Some(output) => {
                            table[output as usize] = None;
                        },
                        None => {},
                    }
                    ret.push(Compiled::Opcode(op));
                }
            } else if 0x09 <= opcode && opcode <= 0x0e {
                let output = match tag.output() {
                    Some(o) => o,
                    None => 0,
                };
                match table[tag.input_i(0)] {
                    Some(constant) => {
                        let result = imm_alu(opcode, constant, get_imm16(op));
                        if i != 0 {
                            if get_primary_field(operations[i - 1].0) == 0x0f
                                && operations[i - 1].1.output() == Some(output) {
                                ret.pop();
                            }
                        }
                        ret.push(Compiled::StoreConstant { register: output, value: result });
                        table[output as usize] = Some(result);
                    },
                    None => {
                        table[output as usize] = None;
                        ret.push(Compiled::Opcode(op));
                    },
                }
            } else if opcode == 0x0f {
                let output = match tag.output() {
                    Some(o) => o,
                    None => 0,
                };
                let result = imm_alu(0x0f, 0, get_imm16(op));
                table[output as usize] = Some(result);
                ret.push(Compiled::StoreConstant { register: output, value: result });
            } else if opcode == 0x23 || opcode == 0x24 || opcode == 0x25 {
                let output = match tag.output() {
                    Some(o) => o,
                    None => 0,
                };
                table[output as usize] = None;
                match table[tag.input_i(0)] {
                    Some(addr) => {
                        let width = if opcode == 0x24 {
                            Width::Byte
                        } else if opcode == 0x25 {
                            Width::Half
                        } else {
                            Width::Word
                        };
                        let address = constant_address(addr, op);
                        ret.push(Compiled::ReadConstant { width, address, target: get_rt(op) });
                    },
                    None => {
                        ret.push(Compiled::Opcode(op));
                    },
                }
            } else if opcode == 0x28 || opcode == 0x29 || opcode == 0x2b {
                let a = table[tag.input_i(0)];
                let b = table[tag.input_i(1)];
                match (a, b) {
                    (Some(addr), _) => {
                        let width = if opcode == 0x28 {
                            Width::Byte
                        } else if opcode == 0x29 {
                            Width::Half
                        } else {
                            Width::Word
                        };
                        let address = constant_address(addr, op);
                        ret.push(Compiled::WriteConstant { width, address, source: get_rt(op) });
                    },
                    _ => {
                        ret.push(Compiled::Opcode(op));
                    },
                }
            } else {
                match tag.output() {
                    Some(output) => {
                        table[output as usize] = None;
                    },
                    None => {},
                }
                ret.push(Compiled::Opcode(op));
            }
            proof {
                assert(table@ =~= expected.0);
                assert(ret@ =~= expected.1);
            }
            i = i + 1;
        }
        proof {
            lemma_ci_fold_no_longer(ops, ops.len());
        }
        ret
    }
}

} // verus!
