//! Instructions tagged with the registers they read and write, for block compilation.
use vstd::prelude::*;
use crate::common::get_rs;
use crate::common::get_rt;
use crate::common::get_rd;
use crate::common::get_primary_field;
use crate::common::get_secondary_field;
use crate::common::primary_field;
use crate::common::secondary_field;
use crate::common::rs_field;
use crate::common::rt_field;
use crate::common::rd_field;

verus! {

/// A MIPS general purpose register number.
pub type MIPSRegister = u32;

/// The instructions that the tagger knows.
pub open spec fn taggable(op: u32) -> bool {
    let p = primary_field(op);
    let f = secondary_field(op);
    let s = rs_field(op);
    let t = rt_field(op);
    if p == 0 {
        f == 0x00 || f == 0x02 || f == 0x03 || f == 0x04 || f == 0x06 || f == 0x07 || f == 0x08
            || f == 0x09 || f == 0x0c || f == 0x0d || (0x10 <= f <= 0x13) || (0x18 <= f <= 0x1b)
            || (0x20 <= f <= 0x27) || f == 0x2a || f == 0x2b
    } else if p == 1 {
        t == 0 || t == 1
    } else if p <= 0x0f {
        true
    } else if p == 0x10 || p == 0x12 {
        s == 0 || s == 2 || s == 4 || s == 6 || (s == 8 && (t == 0 || t == 1)) || s >= 0x10
    } else {
        (0x20 <= p <= 0x26) || (0x28 <= p <= 0x2b) || p == 0x2e
    }
}

/// The registers an instruction reads directly, the register it uses as a memory
/// index, and the register it writes.
pub open spec fn tag_spec(op: u32) -> (Seq<u32>, Option<u32>, Option<u32>) {
    let p = primary_field(op);
    let f = secondary_field(op);
    let s = rs_field(op);
    let t = rt_field(op);
    let d = rd_field(op);
    if p == 0 {
        if f == 0x00 || f == 0x02 || f == 0x03 {
            (seq![t], None, Some(d))
        } else if f == 0x04 || f == 0x06 || f == 0x07 {
            (seq![t, s], None, Some(d))
        } else if f == 0x08 {
            (seq![s], None, None)
        } else if f == 0x09 {
            (seq![s], None, Some(d))
        } else if f == 0x0c || f == 0x0d {
            (seq![], None, None)
        } else if f == 0x10 || f == 0x12 {
            (seq![], None, Some(d))
        } else if f == 0x11 || f == 0x13 {
            (seq![s], None, None)
        } else if 0x18 <= f <= 0x1b {
            (seq![s, t], None, None)
        } else {
            (seq![s, t], None, Some(d))
        }
    } else if p == 1 {
        (seq![s], None, None)
    } else if p == 2 {
        (seq![], None, None)
    } else if p == 3 {
        (seq![], None, Some(31))
    } else if p <= 7 {
        (seq![s, t], None, None)
    } else if p <= 0x0e {
        (seq![s], None, Some(t))
    } else if p == 0x0f {
        (seq![], None, Some(t))
    } else if p == 0x10 || p == 0x12 {
        if s == 0 || s == 2 {
            (seq![], None, Some(t))
        } else if s == 4 || s == 6 {
            (seq![t], None, None)
        } else {
            (seq![], None, None)
        }
    } else if p <= 0x26 {
        (seq![], Some(s), Some(t))
    } else {
        (seq![t], Some(s), None)
    }
}

/// Whether an instruction is followed by a branch delay slot.
pub open spec fn branch_delay_spec(op: u32) -> bool {
    let p = primary_field(op);
    let f = secondary_field(op);
    if p == 0 {
        f == 0x08 || f == 0x09
    } else {
        1 <= p <= 7
    }
}

/// Whether an instruction always leaves the straight-line flow (and so ends a block):
/// JR, JALR, SYSCALL, BREAK, J and JAL.
pub open spec fn unconditional_jump_spec(op: u32) -> bool {
    let p = primary_field(op);
    let f = secondary_field(op);
    if p == 0 {
        f == 0x08 || f == 0x09 || f == 0x0c || f == 0x0d
    } else {
        p == 2 || p == 3
    }
}

/// An instruction, its offset in its block and the registers it reads and writes.
pub struct Insn {
    opcode: u32,
    offset: u32,
    inputs: Vec<u32>,
    index: Option<u32>,
    output: Option<u32>,
}

impl Insn {
    pub closed spec fn op_spec(&self) -> u32 {
        self.opcode
    }

    pub closed spec fn offset_spec(&self) -> u32 {
        self.offset
    }

    pub closed spec fn inputs_spec(&self) -> Seq<u32> {
        self.inputs@
    }

    pub closed spec fn index_spec(&self) -> Option<u32> {
        self.index
    }

    pub closed spec fn output_spec(&self) -> Option<u32> {
        self.output
    }

    /// The registers an instruction touches: its inputs, then its index, then its
    /// output.
    pub open spec fn dependencies_spec(&self) -> Seq<u32> {
        self.inputs_spec() + (match self.index_spec() {
            Some(i) => seq![i],
            None => seq![],
        }) + (match self.output_spec() {
            Some(o) => seq![o],
            None => seq![],
        })
    }

    /// The tags agree with the instruction and every register number is below 32.
    pub open spec fn wf(&self) -> bool {
        &&& taggable(self.op_spec())
        &&& (self.inputs_spec(), self.index_spec(), self.output_spec()) == tag_spec(self.op_spec())
        &&& forall|k: int| 0 <= k < self.dependencies_spec().len() ==> #[trigger] self.dependencies_spec()[k] < 32
    }

    pub fn new(op: u32, offset: u32) -> (r: Self)
        requires
            taggable(op),
        ensures
            r.op_spec() == op,
            r.offset_spec() == offset,
            (r.inputs_spec(), r.index_spec(), r.output_spec()) == tag_spec(op),
            r.wf(),
    {
        let p = get_primary_field(op);
        let s = get_rs(op);
        let t = get_rt(op);
        let d = get_rd(op);
        let (inputs, index, output) = if p == 0x00 {
            let f = get_secondary_field(op);
            if f == 0x00 || f == 0x02 || f == 0x03 {
                //SLL, SRL, SRA
                (vec![t], None, Some(d))
            } else if f == 0x04 || f == 0x06 || f == 0x07 {
                //SLLV, SRLV, SRAV
                (vec![t, s], None, Some(d))
            } else if f == 0x08 {
                //JR
                (vec![s], None, None)
            } else if f == 0x09 {
                //JALR
                (vec![s], None, Some(d))
            } else if f == 0x0c || f == 0x0d {
                //SYSCALL, BREAK
                (vec![], None, None)
            } else if f == 0x10 || f == 0x12 {
                //MFHI, MFLO
                (vec![], None, Some(d))
            } else if f == 0x11 || f == 0x13 {
                //MTHI, MTLO
                (vec![s], None, None)
            } else if 0x18 <= f && f <= 0x1b {
                //MULT, MULTU, DIV, DIVU
                (vec![s, t], None, None)
            } else {
                //ADD, ADDU, SUB, SUBU, AND, OR, XOR, NOR, SLT, SLTU
                (vec![s, t], None, Some(d))
            }
        } else if p == 0x01 {
            //BLTZ, BGEZ
            (vec![s], None, None)
        } else if p == 0x02 {
            //J
            (vec![], None, None)
        } else if p == 0x03 {
            //JAL
            (vec![], None, Some(31))
        } else if p <= 0x07 {
            //BEQ, BNE, BLEZ, BGTZ
            (vec![s, t], None, None)
        } else if p <= 0x0e {
            //ADDI, ADDIU, SLTI, SLTIU, ANDI, ORI, XORI
            (vec![s], None, Some(t))
        } else if p == 0x0f {
            //LUI
            (vec![], None, Some(t))
        } else if p == 0x10 || p == 0x12 {
            //COPn for COP0 and COP2 (GTE)
            if s == 0x00 || s == 0x02 {
                //MFCn, CFCn
                (vec![], None, Some(t))
            } else if s == 0x04 || s == 0x06 {
                //MTCn, CTCn
                (vec![t], None, None)
            } else {
                //BCnF, BCnT, COPn imm25
                (vec![], None, None)
            }
        } else if p <= 0x26 {
            //LB, LH, LWL, LW, LBU, LHU, LWR
            (vec![], Some(s), Some(t))
        } else {
            //SB, SH, SWL, SW, SWR
            (vec![t], Some(s), None)
        };
        let r = Insn { opcode: op, offset, inputs, index, output };
        assert(r.inputs_spec() =~= tag_spec(op).0);
        r
    }

    pub fn op(&self) -> (r: u32)
        ensures
            r == self.op_spec(),
    {
        self.opcode
    }

    pub fn offset(&self) -> (r: u32)
        ensures
            r == self.offset_spec(),
    {
        self.offset
    }

    pub fn inputs(&self) -> (r: &Vec<u32>)
        ensures
            r@ == self.inputs_spec(),
    {
        &self.inputs
    }

    pub fn index(&self) -> (r: Option<u32>)
        ensures
            r == self.index_spec(),
    {
        self.index
    }

    pub fn output(&self) -> (r: Option<u32>)
        ensures
            r == self.output_spec(),
    {
        self.output
    }

    /// Every register the instruction touches: its inputs, its index, its output.
    pub fn dependencies(&self) -> (r: Vec<u32>)
        ensures
            r@ == self.dependencies_spec(),
    {
        let mut deps: Vec<u32> = Vec::new();
        let mut i: usize = 0;
        while i < self.inputs.len()
            invariant
                i <= self.inputs@.len(),
                deps@ == self.inputs@.subrange(0, i as int),
            decreases self.inputs@.len() - i,
        {
            deps.push(self.inputs[i]);
            assert(deps@ =~= self.inputs@.subrange(0, i + 1));
            i = i + 1;
        }
        assert(self.inputs@.subrange(0, self.inputs@.len() as int) =~= self.inputs@);
        match self.index {
            Some(index) => deps.push(index),
            None => {},
        }
        match self.output {
            Some(output) => deps.push(output),
            None => {},
        }
        assert(deps@ =~= self.dependencies_spec());
        deps
    }

    /// Whether an instruction has a branch delay slot after it.
    pub fn has_branch_delay_slot(op: u32) -> (r: bool)
        requires
            primary_field(op) == 1 ==> rt_field(op) == 0 || rt_field(op) == 1,
        ensures
            r == branch_delay_spec(op),
    {
        let p = get_primary_field(op);
        if p == 0x00 {
            let f = get_secondary_field(op);
            f == 0x08 || f == 0x09
        } else if p == 0x01 {
            true
        } else {
            0x02 <= p && p <= 0x07
        }
    }

    /// Whether an instruction ends a block.
    pub fn is_unconditional_jump(op: u32) -> (r: bool)
        ensures
            r == unconditional_jump_spec(op),
    {
        let p = get_primary_field(op);
        if p == 0x00 {
            let f = get_secondary_field(op);
            f == 0x08 || f == 0x09 || f == 0x0c || f == 0x0d
        } else {
            p == 0x02 || p == 0x03
        }
    }
}

/// How often `x` occurs in a list of registers.
pub open spec fn count_in(regs: Seq<u32>, x: u32) -> nat
    decreases regs.len(),
{
    if regs.len() == 0 {
        0
    } else {
        count_in(regs.drop_last(), x) + if regs.last() == x {
            1nat
        } else {
            0nat
        }
    }
}

/// How often register `x` is touched by a list of instructions.
pub open spec fn use_count(insns: Seq<Insn>, x: u32) -> nat
    decreases insns.len(),
{
    if insns.len() == 0 {
        0
    } else {
        use_count(insns.drop_last(), x) + count_in(insns.last().dependencies_spec(), x)
    }
}

/// Whether register `a` comes before register `b` when registers are ordered by how
/// often they are used, most used first, and by number among equally used ones.
pub open spec fn more_frequent(insns: Seq<Insn>, a: u32, b: u32) -> bool {
    use_count(insns, a) > use_count(insns, b) || (use_count(insns, a) == use_count(insns, b)
        && a < b)
}

proof fn lemma_count_in_push(regs: Seq<u32>, j: int, x: u32)
    requires
        0 <= j < regs.len(),
    ensures
        count_in(regs.subrange(0, j + 1), x) == count_in(regs.subrange(0, j), x) + if regs[j]
            == x {
            1nat
        } else {
            0nat
        },
{
    assert(regs.subrange(0, j + 1).drop_last() =~= regs.subrange(0, j));
}

proof fn lemma_use_count_push(insns: Seq<Insn>, i: int, x: u32)
    requires
        0 <= i < insns.len(),
    ensures
        use_count(insns.subrange(0, i + 1), x) == use_count(insns.subrange(0, i), x) + count_in(
            insns[i].dependencies_spec(),
            x,
        ),
{
    assert(insns.subrange(0, i + 1).drop_last() =~= insns.subrange(0, i));
}

proof fn lemma_count_in_bound(regs: Seq<u32>, x: u32)
    requires
        x >= 32,
        forall|k: int| 0 <= k < regs.len() ==> #[trigger] regs[k] < 32,
    ensures
        count_in(regs, x) == 0,
    decreases regs.len(),
{
    if regs.len() > 0 {
        lemma_count_in_bound(regs.drop_last(), x);
    }
}

proof fn lemma_count_in_le_len(regs: Seq<u32>, x: u32)
    ensures
        count_in(regs, x) <= regs.len(),
    decreases regs.len(),
{
    if regs.len() > 0 {
        lemma_count_in_le_len(regs.drop_last(), x);
    }
}

proof fn lemma_use_count_wide(insns: Seq<Insn>, x: u32)
    requires
        x >= 32,
        forall|k: int| 0 <= k < insns.len() ==> (#[trigger] insns[k]).wf(),
    ensures
        use_count(insns, x) == 0,
    decreases insns.len(),
{
    if insns.len() > 0 {
        lemma_use_count_wide(insns.drop_last(), x);
        lemma_count_in_bound(insns.last().dependencies_spec(), x);
    }
}

/// Counts how often each register 0 to 31 is touched by the instructions.
fn count_uses(insns: &Vec<Insn>) -> (counts: Vec<u64>)
    requires
        insns@.len() < 0x1000_0000_0000,
        forall|k: int| 0 <= k < insns@.len() ==> (#[trigger] insns@[k]).wf(),
    ensures
        counts@.len() == 32,
        forall|x: int| 0 <= x < 32 ==> #[trigger] counts@[x] == use_count(insns@, x as u32),
{
    let mut counts: Vec<u64> = Vec::new();
    let mut x: usize = 0;
    while x < 32
        invariant
            x <= 32,
            counts@.len() == x,
            forall|y: int| 0 <= y < x ==> #[trigger] counts@[y] == 0,
        decreases 32 - x,
    {
        counts.push(0);
        x = x + 1;
    }
    assert forall|y: int| 0 <= y < 32 implies #[trigger] counts@[y] == use_count(
        insns@.subrange(0, 0),
        y as u32,
    ) by {}
    let mut i: usize = 0;
    while i < insns.len()
        invariant
            i <= insns@.len(),
            insns@.len() < 0x1000_0000_0000,
            forall|k: int| 0 <= k < insns@.len() ==> (#[trigger] insns@[k]).wf(),
            counts@.len() == 32,
            forall|y: int|
                0 <= y < 32 ==> #[trigger] counts@[y] == use_count(insns@.subrange(0, i as int), y as u32),
            forall|y: int| 0 <= y < 32 ==> #[trigger] counts@[y] <= 3 * i,
        decreases insns@.len() - i,
    {
        let deps = insns[i].dependencies();
        let ghost before = counts@;
        assert(insns@[i as int].wf());
        assert(deps@.len() <= 3);
        let mut j: usize = 0;
        while j < deps.len()
            invariant
                j <= deps@.len(),
                deps@.len() <= 3,
                deps@ == insns@[i as int].dependencies_spec(),
                insns@[i as int].wf(),
                counts@.len() == 32,
                forall|y: int|
                    0 <= y < 32 ==> #[trigger] counts@[y] == before[y] + count_in(
                        deps@.subrange(0, j as int),
                        y as u32,
                    ),
                forall|y: int| 0 <= y < 32 ==> #[trigger] before[y] <= 3 * i,
                i < insns@.len() < 0x1000_0000_0000,
            decreases deps@.len() - j,
        {
            let reg = deps[j];
            assert(reg < 32);
            proof {
                assert forall|y: int| 0 <= y < 32 implies #[trigger] count_in(
                    deps@.subrange(0, j + 1),
                    y as u32,
                ) == count_in(deps@.subrange(0, j as int), y as u32) + if deps@[j as int] == y as u32 {
                    1nat
                } else {
                    0nat
                } by {
                    lemma_count_in_push(deps@, j as int, y as u32);
                }
                lemma_count_in_le_len(deps@.subrange(0, j as int), reg);
            }
            let c = counts[reg as usize];
            assert(c <= 3 * i + j);
            counts.set(reg as usize, c + 1);
            j = j + 1;
        }
        proof {
            assert(deps@.subrange(0, deps@.len() as int) =~= deps@);
            assert forall|y: int| 0 <= y < 32 implies #[trigger] counts@[y] == use_count(
                insns@.subrange(0, i + 1),
                y as u32,
            ) by {
                lemma_use_count_push(insns@, i as int, y as u32);
            }
            assert forall|y: int| 0 <= y < 32 implies #[trigger] counts@[y] <= 3 * (i + 1) by {
                lemma_count_in_le_len(deps@, y as u32);
            }
        }
        i = i + 1;
    }
    assert(insns@.subrange(0, insns@.len() as int) =~= insns@);
    counts
}

/// The registers that a list of instructions touches.
pub trait InsnRegisters {
    /// The instructions are well tagged (and not absurdly many).
    spec fn tagged(&self) -> bool;

    fn registers(&self) -> Vec<MIPSRegister>
        requires
            self.tagged(),
    ;

    fn registers_by_frequency(&self) -> Vec<MIPSRegister>
        requires
            self.tagged(),
    ;
}

impl InsnRegisters for Vec<Insn> {
    open spec fn tagged(&self) -> bool {
        &&& self@.len() < 0x1000_0000_0000
        &&& forall|k: int| 0 <= k < self@.len() ==> (#[trigger] self@[k]).wf()
    }

    /// The registers other than R0 that the instructions touch, in increasing order.
    fn registers(&self) -> (r: Vec<MIPSRegister>)
        ensures
            forall|i: int, j: int| 0 <= i < j < r@.len() ==> r@[i] < r@[j],
            forall|x: u32| r@.contains(x) <==> (x != 0 && use_count(self@, x) > 0),
    {
        let counts = count_uses(self);
        let mut r: Vec<u32> = Vec::new();
        let mut x: u32 = 1;
        while x < 32
            invariant
                1 <= x <= 32,
                counts@.len() == 32,
                forall|y: int| 0 <= y < 32 ==> #[trigger] counts@[y] == use_count(self@, y as u32),
                forall|i: int, j: int| 0 <= i < j < r@.len() ==> r@[i] < r@[j],
                forall|i: int| 0 <= i < r@.len() ==> 1 <= #[trigger] r@[i] < x,
                forall|y: u32| 1 <= y < x ==> (r@.contains(y) <==> use_count(self@, y) > 0),
                forall|y: u32| r@.contains(y) ==> 1 <= y < x,
            decreases 32 - x,
        {
            let ghost old_r = r@;
            assert(counts@[x as int] == use_count(self@, x));
            if counts[x as usize] > 0 {
                r.push(x);
            }
            proof {
                assert forall|y: u32| r@.contains(y) <==> (old_r.contains(y) || (y == x
                    && counts@[x as int] > 0)) by {
                    if r@.contains(y) && y != x {
                        let k = choose|k: int| 0 <= k < r@.len() && r@[k] == y;
                        assert(old_r[k] == y);
                    }
                    if old_r.contains(y) {
                        let k = choose|k: int| 0 <= k < old_r.len() && old_r[k] == y;
                        assert(r@[k] == y);
                    }
                    if y == x && counts@[x as int] > 0 {
                        assert(r@[r@.len() - 1] == y);
                    }
                }
                assert forall|y: u32| 1 <= y < x + 1 implies (r@.contains(y) <==> use_count(
                    self@,
                    y,
                ) > 0) by {
                    if y < x {
                        assert(old_r.contains(y) <==> use_count(self@, y) > 0);
                    } else {
                        assert(y == x);
                        assert(!old_r.contains(y));
                    }
                }
            }
            x = x + 1;
        }
        proof {
            assert forall|y: u32| r@.contains(y) <==> (y != 0 && use_count(self@, y) > 0) by {
                if y >= 32 {
                    lemma_use_count_wide(self@, y);
                }
            }
        }
        r
    }

    /// The registers other than R0 that the instructions touch, most used first; among
    /// registers used equally often, the lower number comes first.
    fn registers_by_frequency(&self) -> (r: Vec<MIPSRegister>)
        ensures
            forall|i: int, j: int| 0 <= i < j < r@.len() ==> more_frequent(self@, r@[i], r@[j]),
            forall|x: u32| r@.contains(x) <==> (x != 0 && use_count(self@, x) > 0),
    {
        let counts = count_uses(self);
        let mut taken: Vec<bool> = Vec::new();
        let mut x: usize = 0;
        while x < 32
            invariant
                x <= 32,
                taken@.len() == x,
                forall|y: int| 0 <= y < x ==> !(#[trigger] taken@[y]),
            decreases 32 - x,
        {
            taken.push(false);
            x = x + 1;
        }
        let mut r: Vec<u32> = Vec::new();
        let ghost mut chosen: Set<int> = Set::empty();
        loop
            invariant
                counts@.len() == 32,
                taken@.len() == 32,
                forall|y: int| 0 <= y < 32 ==> #[trigger] counts@[y] == use_count(self@, y as u32),
                !taken@[0],
                chosen.finite(),
                chosen.len() == r@.len(),
                chosen.subset_of(vstd::set_lib::set_int_range(1, 32)),
                forall|y: int| chosen.contains(y) <==> (0 <= y < 32 && taken@[y]),
                forall|y: u32| r@.contains(y) <==> (y < 32 && taken@[y as int]),
                forall|y: int| 0 < y < 32 && taken@[y] ==> #[trigger] counts@[y] > 0,
                forall|i: int, j: int| 0 <= i < j < r@.len() ==> more_frequent(self@, r@[i], r@[j]),
                forall|i: int, y: int|
                    #![trigger r@[i], taken@[y]]
                    0 <= i < r@.len() && 0 < y < 32 && !taken@[y] && counts@[y] > 0
                        ==> more_frequent(self@, r@[i], y as u32),
                forall|i: int| 0 <= i < r@.len() ==> 0 < #[trigger] r@[i] < 32,
            ensures
                forall|z: int| 0 < z < 32 ==> taken@[z] || counts@[z] == 0,
                forall|y: u32| r@.contains(y) <==> (y < 32 && taken@[y as int]),
                forall|y: int| 0 < y < 32 && taken@[y] ==> #[trigger] counts@[y] > 0,
                forall|i: int, j: int| 0 <= i < j < r@.len() ==> more_frequent(self@, r@[i], r@[j]),
                forall|y: int| 0 <= y < 32 ==> #[trigger] counts@[y] == use_count(self@, y as u32),
                counts@.len() == 32,
                taken@.len() == 32,
                !taken@[0],
            decreases 32 - r@.len(),
        {
            // pick the most used register not yet taken, the lowest number on ties
            let mut best: u32 = 0;
            let mut y: u32 = 1;
            while y < 32
                invariant
                    1 <= y <= 32,
                    best < y,
                    counts@.len() == 32,
                    taken@.len() == 32,
                    best != 0 ==> !taken@[best as int] && counts@[best as int] > 0,
                    best == 0 ==> forall|z: int| 0 < z < y ==> taken@[z] || counts@[z] == 0,
                    best != 0 ==> forall|z: int|
                        0 < z < y && z != best && !taken@[z] && counts@[z] > 0 ==> counts@[best as int]
                            > counts@[z] || (counts@[best as int] == counts@[z] && best < z),
                decreases 32 - y,
            {
                if !taken[y as usize] && counts[y as usize] > 0 {
                    if best == 0 || counts[y as usize] > counts[best as usize] {
                        best = y;
                    }
                }
                y = y + 1;
            }
            if best == 0 {
                break;
            }
            let ghost old_r = r@;
            let ghost old_taken = taken@;
            proof {
                assert(!chosen.contains(best as int));
                vstd::set_lib::lemma_int_range(1, 32);
                assert(chosen.insert(best as int).subset_of(vstd::set_lib::set_int_range(1, 32)));
                vstd::set_lib::lemma_len_subset(
                    chosen.insert(best as int),
                    vstd::set_lib::set_int_range(1, 32),
                );
                chosen = chosen.insert(best as int);
            }
            r.push(best);
            taken.set(best as usize, true);
            proof {
                assert forall|z: u32| r@.contains(z) <==> (z < 32 && taken@[z as int]) by {
                    if r@.contains(z) && z != best {
                        let k = choose|k: int| 0 <= k < r@.len() && r@[k] == z;
                        assert(old_r[k] == z);
                        assert(old_r.contains(z));
                    }
                    if z < 32 && taken@[z as int] && z != best {
                        assert(old_taken[z as int]);
                        assert(old_r.contains(z));
                        let k = choose|k: int| 0 <= k < old_r.len() && old_r[k] == z;
                        assert(r@[k] == z);
                    }
                    if z == best {
                        assert(r@[r@.len() - 1] == z);
                    }
                }
            }
        }
        proof {
            assert forall|z: u32| r@.contains(z) <==> (z != 0 && use_count(self@, z) > 0) by {
                if z >= 32 {
                    lemma_use_count_wide(self@, z);
                } else if z > 0 {
                    assert(counts@[z as int] == use_count(self@, z));
                    assert(taken@[z as int] || counts@[z as int] == 0);
                }
            }
        }
        r
    }
}

} // verus!
