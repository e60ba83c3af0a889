//! The register tags that the dummy JIT's optimizer reads, and the tagging itself.
use vstd::prelude::*;
use crate::common::{get_rs, get_rt, get_rd, get_primary_field, get_secondary_field, primary_field, secondary_field, rs_field, rt_field, rd_field};
use super::Dummy_JIT;

verus! {

/// How an instruction combines its inputs.
#[derive(Debug, Clone, Copy, PartialEq, Eq, Structural)]
pub enum Kind {
    /// With an immediate or shift amount from the instruction.
    Immediate,
    /// With registers only.
    Register,
    Jump,
}

/// An instruction that the optimizer can reason about: its kind, the registers it
/// reads and the register it writes.
pub struct Insn {
    kind: Kind,
    inputs: Vec<u32>,
    output: Option<u32>,
}

/// The instructions that `tag_insn` handles; on any other it panics.
pub open spec fn tag_known(op: u32) -> bool {
    let p = primary_field(op);
    let f = secondary_field(op);
    let t = rt_field(op);
    if p == 0 {
        f == 0x00 || f == 0x02 || f == 0x03 || f == 0x04 || f == 0x06 || f == 0x07 || f == 0x08
            || f == 0x09 || f == 0x0c || (0x10 <= f <= 0x13) || (0x18 <= f <= 0x1b) || (0x20
            <= f <= 0x27) || f == 0x2a || f == 0x2b
    } else if p == 1 {
        t == 0 || t == 1
    } else {
        p <= 0x10 || p == 0x12 || (0x20 <= p <= 0x26) || (0x28 <= p <= 0x2b) || p == 0x2e
    }
}

/// The tagging of an instruction, as (kind, inputs, output). The outer option is none
/// for the instructions that end a block (jumps, branches, SYSCALL); the inner one is
/// none for the instructions that are not tagged (moves from and to HI and LO, the
/// multiplications and divisions, the coprocessors and the loads and stores).
pub open spec fn tag_insn_spec(op: u32) -> Option<Option<(Kind, Seq<u32>, Option<u32>)>> {
    let p = primary_field(op);
    let f = secondary_field(op);
    let s = rs_field(op);
    let t = rt_field(op);
    let d = rd_field(op);
    if p == 0 {
        if f == 0x00 || f == 0x02 || f == 0x03 {
            Some(Some((Kind::Immediate, seq![t], Some(d))))
        } else if f == 0x04 || f == 0x06 || f == 0x07 {
            Some(Some((Kind::Immediate, seq![t, s], Some(d))))
        } else if f == 0x08 || f == 0x09 || f == 0x0c {
            None
        } else if 0x10 <= f <= 0x1b {
            Some(None)
        } else {
            Some(Some((Kind::Register, seq![s, t], Some(d))))
        }
    } else if 1 <= p <= 7 {
        None
    } else if p <= 0x0e {
        Some(Some((Kind::Immediate, seq![s], Some(t))))
    } else if p == 0x0f {
        Some(Some((Kind::Immediate, seq![], Some(t))))
    } else {
        Some(None)
    }
}

impl Insn {
    pub closed spec fn kind_spec(&self) -> Kind {
        self.kind
    }

    pub closed spec fn inputs_spec(&self) -> Seq<u32> {
        self.inputs@
    }

    pub closed spec fn output_spec(&self) -> Option<u32> {
        self.output
    }

    /// The tags as one value.
    pub open spec fn tags(&self) -> (Kind, Seq<u32>, Option<u32>) {
        (self.kind_spec(), self.inputs_spec(), self.output_spec())
    }

    /// The tags are those of some tagged instruction: at most two inputs, every
    /// register number below 32.
    pub open spec fn wf(&self) -> bool {
        &&& self.inputs_spec().len() <= 2
        &&& forall|k: int| 0 <= k < self.inputs_spec().len() ==> #[trigger] self.inputs_spec()[k] < 32
        &&& self.output_spec() matches Some(o) ==> o < 32
    }

    pub fn kind(&self) -> (r: Kind)
        ensures
            r == self.kind_spec(),
    {
        self.kind
    }

    pub fn inputs_len(&self) -> (r: usize)
        ensures
            r == self.inputs_spec().len(),
    {
        self.inputs.len()
    }

    /// Input register `i`.
    pub fn input_i(&self, i: usize) -> (r: usize)
        requires
            i < self.inputs_spec().len(),
        ensures
            r == self.inputs_spec()[i as int],
    {
        self.inputs[i] as usize
    }

    pub fn output(&self) -> (r: Option<u32>)
        ensures
            r == self.output_spec(),
    {
        self.output
    }
}

impl Dummy_JIT {
    /// Tags instruction `op` for the optimizer (see `tag_insn_spec`).
    pub fn tag_insn(&self, op: u32) -> (r: Option<Option<Insn>>)
        requires
            tag_known(op),
        ensures
            tag_insn_spec(op) is None <==> r is None,
            tag_insn_spec(op) == Some(None::<(Kind, Seq<u32>, Option<u32>)>) <==> r == Some(
                None::<Insn>,
            ),
            r matches Some(Some(i)) ==> tag_insn_spec(op) == Some(Some(i.tags())) && i.wf(),
    {
        let p = get_primary_field(op);
        let s = get_rs(op);
        let t = get_rt(op);
        let d = get_rd(op);
        let r = if p == 0x00 {
            let f = get_secondary_field(op);
            if f == 0x00 || f == 0x02 || f == 0x03 {
                //SLL, SRL, SRA
                Some(Some(Insn { kind: Kind::Immediate, inputs: vec![t], output: Some(d) }))
            } else if f == 0x04 || f == 0x06 || f == 0x07 {
                //SLLV, SRLV, SRAV
                Some(Some(Insn { kind: Kind::Immediate, inputs: vec![t, s], output: Some(d) }))
            } else if f == 0x08 || f == 0x09 || f == 0x0c {
                //JR, JALR, SYSCALL
                None
            } else if 0x10 <= f && f <= 0x1b {
                //MFHI, MTHI, MFLO, MTLO, MULT, MULTU, DIV, DIVU
                Some(None)
            } else {
                //ADD, ADDU, SUB, SUBU, AND, OR, XOR, NOR, SLT, SLTU
                Some(Some(Insn { kind: Kind::Register, inputs: vec![s, t], output: Some(d) }))
            }
        } else if 0x01 <= p && p <= 0x07 {
            //BcondZ, J, JAL, BEQ, BNE, BLEZ, BGTZ
            None
        } else if p <= 0x0e {
            //ADDI, ADDIU, SLTI, SLTIU, ANDI, ORI, XORI
            Some(Some(Insn { kind: Kind::Immediate, inputs: vec![s], output: Some(t) }))
        } else if p == 0x0f {
            //LUI
            Some(Some(Insn { kind: Kind::Immediate, inputs: vec![], output: Some(t) }))
        } else {
            //COP0, COP2, loads and stores
            Some(None)
        };
        proof {
            if r is Some && r->0 is Some {
                let i = r->0->0;
                let (kind, inputs, output) = tag_insn_spec(op)->0->0;
                assert(i.inputs_spec() =~= inputs);
            }
        }
        r
    }
}

} // verus!
