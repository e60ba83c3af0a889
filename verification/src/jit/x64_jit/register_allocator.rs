//! Where each MIPS register lives while a block runs: in an x86-64 register or in a
//! slot of the stack frame.
use vstd::prelude::*;
use rand::seq::SliceRandom;
use crate::jit::insn::{Insn, MIPSRegister};
use super::macro_assembler::{MacroAssembler, free_regs_spec};
use super::macro_assembler::mov::movl_rr_spec;
use super::macro_assembler::xchg::{xchgq_rr_spec, xchgl_rm_offset_spec};

verus! {

pub type X64GPRNum = u32;

pub const X64_RAX: X64GPRNum = 0;
pub const X64_RCX: X64GPRNum = 1;
pub const X64_RDX: X64GPRNum = 2;
pub const X64_RBX: X64GPRNum = 3;
pub const X64_RSP: X64GPRNum = 4;
pub const X64_RBP: X64GPRNum = 5;
pub const X64_RSI: X64GPRNum = 6;
pub const X64_RDI: X64GPRNum = 7;
pub const X64_R8: X64GPRNum = 8;
pub const X64_R9: X64GPRNum = 9;
pub const X64_R10: X64GPRNum = 10;
pub const X64_R11: X64GPRNum = 11;
pub const X64_R12: X64GPRNum = 12;
pub const X64_R13: X64GPRNum = 13;
pub const X64_R14: X64GPRNum = 14;
pub const X64_R15: X64GPRNum = 15;

/// A MIPS register is either bound to an x86-64 register or spilled to the stack at
/// an offset.
#[derive(Debug, Clone, Copy, PartialEq, Eq, Structural)]
pub enum X64Register {
    GPR(X64GPRNum),
    Stack(i32),
}

/// A place for a MIPS register and the MIPS register held there, if any.
#[derive(Debug)]
pub struct Mapping {
    x64_reg: X64Register,
    mips_reg: Option<MIPSRegister>,
}

impl Mapping {
    pub closed spec fn x64_spec(&self) -> X64Register {
        self.x64_reg
    }

    pub closed spec fn mips_spec(&self) -> Option<MIPSRegister> {
        self.mips_reg
    }

    fn new(tuple: (X64Register, Option<MIPSRegister>)) -> (r: Mapping)
        ensures
            r.x64_spec() == tuple.0,
            r.mips_spec() == tuple.1,
    {
        Mapping { x64_reg: tuple.0, mips_reg: tuple.1 }
    }

    fn on_stack(&self) -> (r: bool)
        ensures
            r == self.x64_spec() is Stack,
    {
        match self.x64_reg {
            X64Register::Stack(_) => true,
            _ => false,
        }
    }

    fn stack_offset(&self) -> (r: i32)
        requires
            self.x64_spec() is Stack,
        ensures
            self.x64_spec() == X64Register::Stack(r),
    {
        match self.x64_reg {
            X64Register::Stack(offset) => offset,
            X64Register::GPR(_) => 0,
        }
    }

    fn spill(&mut self, offset: i32)
        ensures
            final(self).x64_spec() == X64Register::Stack(offset),
            final(self).mips_spec() == old(self).mips_spec(),
    {
        self.x64_reg = X64Register::Stack(offset);
    }

    fn is_bound(&self) -> (r: bool)
        ensures
            r == self.x64_spec() is GPR,
    {
        match self.x64_reg {
            X64Register::GPR(_) => true,
            _ => false,
        }
    }

    /// The x86-64 register the mapping is bound to.
    pub fn bound_gpr(&self) -> (r: X64GPRNum)
        requires
            self.x64_spec() is GPR,
        ensures
            self.x64_spec() == X64Register::GPR(r),
    {
        match self.x64_reg {
            X64Register::GPR(x) => x,
            X64Register::Stack(_) => 0,
        }
    }

    fn bind(&mut self, x64_reg: X64GPRNum)
        ensures
            final(self).x64_spec() == X64Register::GPR(x64_reg),
            final(self).mips_spec() == old(self).mips_spec(),
    {
        self.x64_reg = X64Register::GPR(x64_reg);
    }

    fn x64_reg(&self) -> (r: X64Register)
        ensures
            r == self.x64_spec(),
    {
        self.x64_reg
    }

    fn in_use(&self) -> (r: bool)
        ensures
            r == self.mips_spec() is Some,
    {
        self.mips_reg.is_some()
    }

    fn mips_reg(&self) -> (r: MIPSRegister)
        requires
            self.mips_spec() is Some,
        ensures
            self.mips_spec() == Some(r),
    {
        match self.mips_reg {
            Some(m) => m,
            None => 0,
        }
    }
}

/// Where the places come from for a new map: the free registers in order, then the
/// sixteen stack slots of four bytes each.
pub open spec fn initial_place(i: int) -> X64Register {
    if i < 15 {
        X64Register::GPR(free_regs_spec()[i])
    } else {
        X64Register::Stack(((i - 15) * 4) as i32)
    }
}

/// The MIPS registers that a block can write: R1 to R31.
pub open spec fn writable_mips_regs() -> Seq<u32> {
    Seq::new(31, |i: int| (i + 1) as u32)
}

/// How many mappings hold a MIPS register on the stack.
pub open spec fn spilled_count(maps: Seq<Mapping>) -> nat
    decreases maps.len(),
{
    if maps.len() == 0 {
        0
    } else {
        spilled_count(maps.drop_last()) + (if maps.last().mips_spec() is Some
            && maps.last().x64_spec() is Stack {
            1nat
        } else {
            0nat
        })
    }
}

/// The permutation that `rand`'s `SliceRandom::shuffle` applies to `v`, with a
/// generator from `rand::thread_rng()`. The result holds the same values as often as
/// `v` does; in which order depends on the random generator and is left unsaid.
#[verifier::external_body]
fn shuffled(v: Vec<u32>) -> (r: Vec<u32>)
    ensures
        r@.to_multiset() == v@.to_multiset(),
{
    let mut v = v;
    v.shuffle(&mut rand::thread_rng());
    v
}

/// The values 1 to `n` - 1, in order.
fn one_up_to(n: u32) -> (r: Vec<u32>)
    requires
        1 <= n,
    ensures
        r@ == Seq::new((n - 1) as nat, |i: int| (i + 1) as u32),
{
    let mut out: Vec<u32> = Vec::new();
    let mut x: u32 = 1;
    while x < n
        invariant
            1 <= x <= n,
            out@ == Seq::new((x - 1) as nat, |i: int| (i + 1) as u32),
        decreases n - x,
    {
        out.push(x);
        x = x + 1;
        assert(out@ =~= Seq::new((x - 1) as nat, |i: int| (i + 1) as u32));
    }
    out
}

/// A shuffled sequence of R1 to R31 holds each of them exactly once.
proof fn lemma_shuffled_writable(s: Seq<u32>)
    requires
        s.to_multiset() == writable_mips_regs().to_multiset(),
    ensures
        s.len() == 31,
        s.no_duplicates(),
        forall|x: u32| s.contains(x) <==> 1 <= x <= 31,
{
    let w = writable_mips_regs();
    broadcast use vstd::seq_lib::group_to_multiset_ensures;

    s.to_multiset_ensures();
    w.to_multiset_ensures();
    assert(w.no_duplicates());
    w.lemma_multiset_has_no_duplicates();
    s.lemma_multiset_has_no_duplicates_conv();
    assert forall|x: u32| s.contains(x) <==> 1 <= x <= 31 by {
        assert(s.contains(x) <==> s.to_multiset().count(x) > 0);
        assert(w.contains(x) <==> w.to_multiset().count(x) > 0);
        if 1 <= x <= 31 {
            assert(w[x - 1] == x);
        }
    }
}

/// Where every MIPS register of a block lives.
#[derive(Debug)]
pub struct RegisterMap {
    mappings: Vec<Mapping>,
}

impl RegisterMap {
    pub closed spec fn maps(&self) -> Seq<Mapping> {
        self.mappings@
    }

    /// The MIPS registers held, mapping by mapping.
    pub open spec fn mips_regs(&self) -> Seq<Option<u32>> {
        self.maps().map_values(|m: Mapping| m.mips_spec())
    }

    /// Every mapping holds a MIPS register, and the map is small enough for its frame
    /// size to fit in 32 bits.
    pub open spec fn wf(&self) -> bool {
        &&& self.maps().len() < 0x1000_0000
        &&& forall|i: int| 0 <= i < self.maps().len() ==> (#[trigger] self.maps()[i]).mips_spec() is Some
    }

    /// Whether some mapping holds MIPS register `m`.
    pub open spec fn holds(&self, m: u32) -> bool {
        exists|i: int| 0 <= i < self.maps().len() && (#[trigger] self.maps()[i]).mips_spec() == Some(m)
    }

    /// Whether MIPS register `m` is held in an x86-64 register.
    pub open spec fn mips_bound_spec(&self, m: u32) -> bool {
        exists|i: int|
            0 <= i < self.maps().len() && (#[trigger] self.maps()[i]).mips_spec() == Some(m)
                && self.maps()[i].x64_spec() is GPR
    }

    /// Whether x86-64 register `x` holds a MIPS register.
    pub open spec fn gpr_bound_spec(&self, x: u32) -> bool {
        exists|i: int|
            0 <= i < self.maps().len() && (#[trigger] self.maps()[i]).mips_spec() is Some
                && self.maps()[i].x64_spec() == X64Register::GPR(x)
    }

    /// The map that holds the MIPS registers of `order` in that order: the first
    /// fifteen bound to the free registers in order, the rest spilled to the stack
    /// slots.
    pub fn from_order(order: &Vec<u32>) -> (r: Self)
        requires
            order@.len() == 31,
        ensures
            r.wf(),
            r.maps().len() == 31,
            forall|i: int| 0 <= i < 31 ==> (#[trigger] r.maps()[i]).x64_spec() == initial_place(i),
            forall|i: int| 0 <= i < 31 ==> (#[trigger] r.maps()[i]).mips_spec() == Some(order@[i]),
    {
        let free = MacroAssembler::free_regs();
        let mut mappings: Vec<Mapping> = Vec::new();
        let mut i: usize = 0;
        while i < 31
            invariant
                i <= 31,
                free@ == free_regs_spec(),
                order@.len() == 31,
                mappings@.len() == i,
                forall|k: int| 0 <= k < i ==> (#[trigger] mappings@[k]).x64_spec() == initial_place(k),
                forall|k: int| 0 <= k < i ==> (#[trigger] mappings@[k]).mips_spec() == Some(order@[k]),
            decreases 31 - i,
        {
            let place = if i < 15 {
                X64Register::GPR(free[i])
            } else {
                X64Register::Stack(((i - 15) * 4) as i32)
            };
            mappings.push(Mapping::new((place, Some(order[i]))));
            i = i + 1;
        }
        RegisterMap { mappings }
    }

    /// A new map: R1 to R31 in a random order (see `from_order`).
    pub fn new(tagged_opcodes: &Vec<Insn>) -> (r: Self)
        ensures
            r.wf(),
            r.maps().len() == 31,
            forall|i: int| 0 <= i < 31 ==> (#[trigger] r.maps()[i]).x64_spec() == initial_place(i),
            forall|i: int| 0 <= i < 31 ==> (#[trigger] r.maps()[i]).mips_spec() is Some,
            r.mips_regs().map_values(|m: Option<u32>| m->0).to_multiset()
                == writable_mips_regs().to_multiset(),
    {
        let reg_by_freq = shuffled(one_up_to(32));
        proof {
            assert(Seq::new(31nat, |i: int| (i + 1) as u32) =~= writable_mips_regs());
            lemma_shuffled_writable(reg_by_freq@);
        }
        let r = RegisterMap::from_order(&reg_by_freq);
        proof {
            assert(r.mips_regs().map_values(|m: Option<u32>| m->0) =~= reg_by_freq@);
        }
        r
    }

    /// The size in bytes of the stack frame that the spilled registers take.
    pub fn count_spilled(&self) -> (r: i32)
        requires
            self.wf(),
        ensures
            r == 4 * spilled_count(self.maps()),
    {
        let mut count: u32 = 0;
        let mut i: usize = 0;
        while i < self.mappings.len()
            invariant
                i <= self.maps().len(),
                self.maps().len() < 0x1000_0000,
                count == spilled_count(self.maps().subrange(0, i as int)),
                count <= i,
            decreases self.maps().len() - i,
        {
            let m = &self.mappings[i];
            proof {
                let s = self.maps().subrange(0, i + 1);
                assert(s.drop_last() =~= self.maps().subrange(0, i as int));
            }
            if m.in_use() && m.on_stack() {
                count = count + 1;
            }
            i = i + 1;
        }
        assert(self.maps().subrange(0, i as int) =~= self.maps());
        4 * (count as i32)
    }

    /// Whether MIPS register `mips_reg` is held in an x86-64 register.
    pub fn mips_is_bound(&self, mips_reg: u32) -> (r: bool)
        ensures
            r == self.mips_bound_spec(mips_reg),
    {
        let mut i: usize = 0;
        while i < self.mappings.len()
            invariant
                i <= self.maps().len(),
                forall|k: int|
                    0 <= k < i ==> !((#[trigger] self.maps()[k]).mips_spec() == Some(mips_reg)
                        && self.maps()[k].x64_spec() is GPR),
            decreases self.maps().len() - i,
        {
            let m = &self.mappings[i];
            if m.in_use() && m.is_bound() && m.mips_reg() == mips_reg {
                return true;
            }
            i = i + 1;
        }
        false
    }

    /// Whether x86-64 register `x64_reg` holds a MIPS register.
    pub fn gpr_is_bound(&self, x64_reg: X64GPRNum) -> (r: bool)
        ensures
            r == self.gpr_bound_spec(x64_reg),
    {
        let mut i: usize = 0;
        while i < self.mappings.len()
            invariant
                i <= self.maps().len(),
                forall|k: int|
                    0 <= k < i ==> !((#[trigger] self.maps()[k]).mips_spec() is Some
                        && self.maps()[k].x64_spec() == X64Register::GPR(x64_reg)),
            decreases self.maps().len() - i,
        {
            let m = &self.mappings[i];
            if m.in_use() && m.is_bound() && m.bound_gpr() == x64_reg {
                return true;
            }
            i = i + 1;
        }
        false
    }

    /// The first mapping that holds MIPS register `mips_reg`, if any.
    pub fn mips_to_x64(&self, mips_reg: u32) -> (r: Option<&Mapping>)
        requires
            self.wf(),
        ensures
            r is None ==> forall|k: int|
                0 <= k < self.maps().len() ==> (#[trigger] self.maps()[k]).mips_spec() != Some(
                    mips_reg,
                ),
            r matches Some(m) ==> exists|k: int|
                0 <= k < self.maps().len() && *m == #[trigger] self.maps()[k] && m.mips_spec() == Some(
                    mips_reg,
                ) && forall|j: int| 0 <= j < k ==> self.maps()[j].mips_spec() != Some(mips_reg),
    {
        let mut i: usize = 0;
        while i < self.mappings.len()
            invariant
                self.wf(),
                i <= self.maps().len(),
                forall|k: int| 0 <= k < i ==> (#[trigger] self.maps()[k]).mips_spec() != Some(mips_reg),
            decreases self.maps().len() - i,
        {
            let m = &self.mappings[i];
            assert(self.maps()[i as int].mips_spec() is Some);
            if m.mips_reg() == mips_reg {
                return Some(m);
            }
            i = i + 1;
        }
        None
    }

    /// The MIPS register held in x86-64 register `x64_reg`, if any.
    fn gpr_to_mips(&self, x64_reg: X64GPRNum) -> (r: Option<u32>)
        ensures
            r is None <==> !self.gpr_bound_spec(x64_reg),
            r matches Some(m) ==> exists|k: int|
                0 <= k < self.maps().len() && (#[trigger] self.maps()[k]).x64_spec() == X64Register::GPR(
                    x64_reg,
                ) && self.maps()[k].mips_spec() == Some(m) && forall|j: int|
                    0 <= j < k ==> !(self.maps()[j].x64_spec() == X64Register::GPR(x64_reg)
                        && self.maps()[j].mips_spec() is Some),
    {
        let mut i: usize = 0;
        while i < self.mappings.len()
            invariant
                i <= self.maps().len(),
                forall|k: int|
                    0 <= k < i ==> !((#[trigger] self.maps()[k]).mips_spec() is Some
                        && self.maps()[k].x64_spec() == X64Register::GPR(x64_reg)),
            decreases self.maps().len() - i,
        {
            let m = &self.mappings[i];
            if m.in_use() && m.is_bound() && m.bound_gpr() == x64_reg {
                return Some(m.mips_reg());
            }
            i = i + 1;
        }
        None
    }

    /// The MIPS register spilled to stack offset `offset`, if any.
    fn offset_to_mips(&self, offset: i32) -> (r: Option<u32>)
        ensures
            r is None <==> !exists|k: int|
                0 <= k < self.maps().len() && (#[trigger] self.maps()[k]).mips_spec() is Some
                    && self.maps()[k].x64_spec() == X64Register::Stack(offset),
            r matches Some(m) ==> exists|k: int|
                0 <= k < self.maps().len() && (#[trigger] self.maps()[k]).x64_spec() == X64Register::Stack(
                    offset,
                ) && self.maps()[k].mips_spec() == Some(m),
    {
        let mut i: usize = 0;
        while i < self.mappings.len()
            invariant
                i <= self.maps().len(),
                forall|k: int|
                    0 <= k < i ==> !((#[trigger] self.maps()[k]).mips_spec() is Some
                        && self.maps()[k].x64_spec() == X64Register::Stack(offset)),
            decreases self.maps().len() - i,
        {
            let m = &self.mappings[i];
            if m.in_use() && m.on_stack() && m.stack_offset() == offset {
                return Some(m.mips_reg());
            }
            i = i + 1;
        }
        None
    }
}

impl RegisterMap {
    /// Moves every mapping that holds `mips_reg` to `place`.
    fn place_mips(&mut self, mips_reg: u32, place: X64Register)
        requires
            old(self).wf(),
        ensures
            final(self).wf(),
            final(self).maps().len() == old(self).maps().len(),
            forall|i: int|
                0 <= i < old(self).maps().len() ==> (#[trigger] final(self).maps()[i]).mips_spec()
                    == old(self).maps()[i].mips_spec() && final(self).maps()[i].x64_spec() == (if old(
                    self,
                ).maps()[i].mips_spec() == Some(mips_reg) {
                    place
                } else {
                    old(self).maps()[i].x64_spec()
                }),
    {
        let mut i: usize = 0;
        while i < self.mappings.len()
            invariant
                i <= self.maps().len(),
                self.maps().len() == old(self).maps().len(),
                forall|k: int|
                    0 <= k < self.maps().len() ==> (#[trigger] self.maps()[k]).mips_spec() == old(
                        self,
                    ).maps()[k].mips_spec(),
                forall|k: int|
                    0 <= k < self.maps().len() ==> (#[trigger] self.maps()[k]).x64_spec() == (if k < i
                        && old(self).maps()[k].mips_spec() == Some(mips_reg) {
                        place
                    } else {
                        old(self).maps()[k].x64_spec()
                    }),
            decreases self.maps().len() - i,
        {
            if self.mappings[i].in_use() && self.mappings[i].mips_reg() == mips_reg {
                let m = &self.mappings[i];
                let updated = Mapping::new((place, m.mips_reg));
                self.mappings.set(i, updated);
            }
            i = i + 1;
        }
    }

    /// Binds every mapping that holds `mips_reg` to x86-64 register `x64_reg`.
    fn bind_mips_to_gpr(&mut self, mips_reg: u32, x64_reg: X64GPRNum)
        requires
            old(self).wf(),
        ensures
            final(self).wf(),
            final(self).maps().len() == old(self).maps().len(),
            forall|i: int|
                0 <= i < old(self).maps().len() ==> (#[trigger] final(self).maps()[i]).mips_spec()
                    == old(self).maps()[i].mips_spec() && final(self).maps()[i].x64_spec() == (if old(
                    self,
                ).maps()[i].mips_spec() == Some(mips_reg) {
                    X64Register::GPR(x64_reg)
                } else {
                    old(self).maps()[i].x64_spec()
                }),
    {
        self.place_mips(mips_reg, X64Register::GPR(x64_reg));
    }

    /// Spills every mapping that holds `mips_reg` to stack offset `offset`.
    fn spill_mips_to_offset(&mut self, mips_reg: u32, offset: i32)
        requires
            old(self).wf(),
        ensures
            final(self).wf(),
            final(self).maps().len() == old(self).maps().len(),
            forall|i: int|
                0 <= i < old(self).maps().len() ==> (#[trigger] final(self).maps()[i]).mips_spec()
                    == old(self).maps()[i].mips_spec() && final(self).maps()[i].x64_spec() == (if old(
                    self,
                ).maps()[i].mips_spec() == Some(mips_reg) {
                    X64Register::Stack(offset)
                } else {
                    old(self).maps()[i].x64_spec()
                }),
    {
        self.place_mips(mips_reg, X64Register::Stack(offset));
    }
}

/// The place of the first mapping that holds `m`.
pub open spec fn place_of(maps: Seq<Mapping>, m: u32) -> X64Register {
    let k = choose|k: int|
        0 <= k < maps.len() && maps[k].mips_spec() == Some(m) && forall|j: int|
            0 <= j < k ==> maps[j].mips_spec() != Some(m);
    maps[k].x64_spec()
}

/// The MIPS register held in x86-64 register `x`, by the first mapping bound to it.
pub open spec fn held_in(maps: Seq<Mapping>, x: u32) -> u32 {
    let k = choose|k: int|
        0 <= k < maps.len() && maps[k].x64_spec() == X64Register::GPR(x) && maps[k].mips_spec() is Some
            && forall|j: int|
            0 <= j < k ==> !(maps[j].x64_spec() == X64Register::GPR(x) && maps[j].mips_spec() is Some);
    maps[k].mips_spec()->0
}

impl MacroAssembler {
    /// Brings MIPS register `mips_reg` into x86-64 register `x64_reg`. When `x64_reg`
    /// already holds another MIPS register, the two trade places (XCHG); otherwise
    /// the value is copied in (MOV) and `mips_reg` is bound to `x64_reg`. A value
    /// spilled to the stack is not loaded yet when `x64_reg` is free: no code is
    /// emitted then.
    pub fn emit_swap_mips_registers(&mut self, register_map: &mut RegisterMap, mips_reg: u32, x64_reg: u32)
        requires
            old(register_map).wf(),
            old(register_map).holds(mips_reg),
        ensures
            final(register_map).wf(),
            final(register_map).maps().len() == old(register_map).maps().len(),
            final(self).labels() == old(self).labels(),
            forall|i: int|
                0 <= i < old(register_map).maps().len() ==> (#[trigger] final(register_map).maps()[i]).mips_spec()
                    == old(register_map).maps()[i].mips_spec(),
            ({
                let maps = old(register_map).maps();
                let place = place_of(maps, mips_reg);
                let bound = old(register_map).gpr_bound_spec(x64_reg);
                let other = held_in(maps, x64_reg);
                let moved = |new_place: X64Register| forall|i: int|
                    0 <= i < maps.len() ==> (#[trigger] final(register_map).maps()[i]).x64_spec() == (if maps[i].mips_spec()
                        == Some(other) {
                        new_place
                    } else if maps[i].mips_spec() == Some(mips_reg) {
                        X64Register::GPR(x64_reg)
                    } else {
                        maps[i].x64_spec()
                    });
                let bound_only = forall|i: int|
                    0 <= i < maps.len() ==> (#[trigger] final(register_map).maps()[i]).x64_spec() == (if maps[i].mips_spec()
                        == Some(mips_reg) {
                        X64Register::GPR(x64_reg)
                    } else {
                        maps[i].x64_spec()
                    });
                match place {
                    X64Register::GPR(o) => if bound {
                        if o == x64_reg {
                            &&& final(register_map).maps() == maps
                            &&& final(self)@ == old(self)@
                        } else {
                            &&& moved(X64Register::GPR(o))
                            &&& final(self)@ == old(self)@ + xchgq_rr_spec(o, x64_reg)
                        }
                    } else {
                        &&& bound_only
                        &&& final(self)@ == old(self)@ + movl_rr_spec(o, x64_reg)
                    },
                    X64Register::Stack(offset) => if bound {
                        &&& moved(X64Register::Stack(offset))
                        &&& final(self)@ == old(self)@ + xchgl_rm_offset_spec(x64_reg, X64_RSP, offset)
                    } else {
                        &&& bound_only
                        &&& final(self)@ == old(self)@
                    },
                }
            }),
    {
        let ghost maps = register_map.maps();
        let place = match register_map.mips_to_x64(mips_reg) {
            Some(m) => m.x64_reg(),
            None => X64Register::GPR(x64_reg),
        };
        proof {
            let k = choose|k: int|
                0 <= k < maps.len() && maps[k].mips_spec() == Some(mips_reg) && forall|j: int|
                    0 <= j < k ==> maps[j].mips_spec() != Some(mips_reg);
            assert(place == place_of(maps, mips_reg));
        }
        if register_map.gpr_is_bound(x64_reg) {
            let other_mips_reg = match register_map.gpr_to_mips(x64_reg) {
                Some(m) => m,
                None => 0,
            };
            proof {
                let k = choose|k: int|
                    0 <= k < maps.len() && maps[k].x64_spec() == X64Register::GPR(x64_reg)
                        && maps[k].mips_spec() is Some && forall|j: int|
                        0 <= j < k ==> !(maps[j].x64_spec() == X64Register::GPR(x64_reg)
                            && maps[j].mips_spec() is Some);
                let k2 = choose|k2: int|
                    0 <= k2 < maps.len() && (#[trigger] maps[k2]).x64_spec() == X64Register::GPR(x64_reg)
                        && maps[k2].mips_spec() == Some(other_mips_reg) && forall|j: int|
                        0 <= j < k2 ==> !(maps[j].x64_spec() == X64Register::GPR(x64_reg)
                            && maps[j].mips_spec() is Some);
                assert(k == k2);
                assert(other_mips_reg == held_in(maps, x64_reg));
            }
            match place {
                X64Register::GPR(other_x64_reg) => {
                    if x64_reg != other_x64_reg {
                        register_map.bind_mips_to_gpr(mips_reg, x64_reg);
                        register_map.bind_mips_to_gpr(other_mips_reg, other_x64_reg);
                        self.emit_xchgq_rr(other_x64_reg, x64_reg);
                    }
                },
                X64Register::Stack(offset) => {
                    register_map.bind_mips_to_gpr(mips_reg, x64_reg);
                    register_map.spill_mips_to_offset(other_mips_reg, offset);
                    self.emit_xchgl_rm_offset(x64_reg, X64_RSP, offset);
                },
            }
        } else {
            match place {
                X64Register::GPR(other_x64_reg) => {
                    register_map.bind_mips_to_gpr(mips_reg, x64_reg);
                    self.emit_movl_rr(other_x64_reg, x64_reg);
                },
                X64Register::Stack(offset) => {
                    register_map.bind_mips_to_gpr(mips_reg, x64_reg);
                    self.emit_movl_mr_offset(X64_RSP, x64_reg, offset);
                },
            }
        }
        assert(register_map.maps() =~= register_map.maps());
    }
}

/// A new register map spills sixteen MIPS registers, a 64-byte stack frame.
pub proof fn lemma_new_map_frame(r: RegisterMap)
    requires
        r.maps().len() == 31,
        forall|i: int| 0 <= i < 31 ==> (#[trigger] r.maps()[i]).x64_spec() == initial_place(i),
        forall|i: int| 0 <= i < 31 ==> (#[trigger] r.maps()[i]).mips_spec() is Some,
    ensures
        4 * spilled_count(r.maps()) == 64,
{
    let s = r.maps();
    assert forall|n: nat| n <= 31 implies spilled_count(#[trigger] s.subrange(0, n as int)) == (if n
        <= 15 {
        0
    } else {
        n - 15
    }) by {
        lemma_spilled_prefix(s, n);
    }
    assert(s.subrange(0, 31) =~= s);
}

proof fn lemma_spilled_prefix(s: Seq<Mapping>, n: nat)
    requires
        s.len() == 31,
        n <= 31,
        forall|i: int| 0 <= i < 31 ==> (#[trigger] s[i]).x64_spec() == initial_place(i),
        forall|i: int| 0 <= i < 31 ==> (#[trigger] s[i]).mips_spec() is Some,
    ensures
        spilled_count(s.subrange(0, n as int)) == (if n <= 15 {
            0
        } else {
            n - 15
        }),
    decreases n,
{
    if n > 0 {
        lemma_spilled_prefix(s, (n - 1) as nat);
        assert(s.subrange(0, n as int).drop_last() =~= s.subrange(0, n - 1));
        assert(s[n - 1].x64_spec() == initial_place(n - 1));
    }
}

/// In a new register map each of R1 to R31 is held by exactly one mapping.
pub proof fn lemma_new_map_holds_each_register_once(r: RegisterMap)
    requires
        r.maps().len() == 31,
        forall|i: int| 0 <= i < 31 ==> (#[trigger] r.maps()[i]).mips_spec() is Some,
        r.mips_regs().map_values(|m: Option<u32>| m->0).to_multiset()
            == writable_mips_regs().to_multiset(),
    ensures
        forall|x: u32| 1 <= x <= 31 ==> #[trigger] r.holds(x),
        forall|i: int, j: int|
            0 <= i < 31 && 0 <= j < 31 && i != j ==> (#[trigger] r.maps()[i]).mips_spec()
                != (#[trigger] r.maps()[j]).mips_spec(),
{
    let s = r.mips_regs().map_values(|m: Option<u32>| m->0);
    lemma_shuffled_writable(s);
    assert forall|x: u32| 1 <= x <= 31 implies #[trigger] r.holds(x) by {
        assert(s.contains(x));
        let i = choose|i: int| 0 <= i < s.len() && s[i] == x;
        assert(r.maps()[i].mips_spec() == Some(x));
    }
    assert forall|i: int, j: int|
        0 <= i < 31 && 0 <= j < 31 && i != j implies (#[trigger] r.maps()[i]).mips_spec()
        != (#[trigger] r.maps()[j]).mips_spec() by {
        assert(s[i] != s[j]);
    }
}

/// In a new register map the fifteen free x86-64 registers each hold a MIPS register,
/// and the stack pointer holds none.
pub proof fn lemma_new_map_binds_free_registers(r: RegisterMap, x: u32)
    requires
        r.maps().len() == 31,
        forall|i: int| 0 <= i < 31 ==> (#[trigger] r.maps()[i]).x64_spec() == initial_place(i),
        forall|i: int| 0 <= i < 31 ==> (#[trigger] r.maps()[i]).mips_spec() is Some,
    ensures
        r.gpr_bound_spec(x) <==> x < 16 && x != X64_RSP,
{
    if x < 16 && x != X64_RSP {
        let i: int = if x < 4 {
            x as int
        } else {
            x - 1
        };
        assert(r.maps()[i].x64_spec() == initial_place(i));
        assert(free_regs_spec()[i] == x);
    }
    if r.gpr_bound_spec(x) {
        let i = choose|i: int|
            0 <= i < r.maps().len() && (#[trigger] r.maps()[i]).mips_spec() is Some
                && r.maps()[i].x64_spec() == X64Register::GPR(x);
        assert(r.maps()[i].x64_spec() == initial_place(i));
    }
}

} // verus!
