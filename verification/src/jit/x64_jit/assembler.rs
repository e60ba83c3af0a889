//! Saving and restoring the registers a call may clobber, around calls out of
//! generated code.
use vstd::prelude::*;
use super::macro_assembler::{MacroAssembler, caller_saved_regs_spec};
use super::macro_assembler::stack::{push_r_spec, pop_r_spec};
use super::macro_assembler::alu::add_ir_spec;
use super::register_allocator::{RegisterMap, X64_RSP};

verus! {

/// The pushes of those of `regs` that hold a MIPS register, in order.
pub open spec fn pushes(map: RegisterMap, regs: Seq<u32>) -> Seq<u8>
    decreases regs.len(),
{
    if regs.len() == 0 {
        seq![]
    } else {
        pushes(map, regs.drop_last()) + (if map.gpr_bound_spec(regs.last()) {
            push_r_spec(regs.last())
        } else {
            seq![]
        })
    }
}

/// The pops of those of `regs` that hold a MIPS register, last register first.
pub open spec fn pops(map: RegisterMap, regs: Seq<u32>) -> Seq<u8>
    decreases regs.len(),
{
    if regs.len() == 0 {
        seq![]
    } else {
        (if map.gpr_bound_spec(regs.last()) {
            pop_r_spec(regs.last())
        } else {
            seq![]
        }) + pops(map, regs.drop_last())
    }
}

/// How many of `regs` hold a MIPS register.
pub open spec fn bound_count(map: RegisterMap, regs: Seq<u32>) -> nat
    decreases regs.len(),
{
    if regs.len() == 0 {
        0
    } else {
        bound_count(map, regs.drop_last()) + (if map.gpr_bound_spec(regs.last()) {
            1nat
        } else {
            0nat
        })
    }
}

proof fn lemma_bound_count_le(map: RegisterMap, regs: Seq<u32>)
    ensures
        bound_count(map, regs) <= regs.len(),
    decreases regs.len(),
{
    if regs.len() > 0 {
        lemma_bound_count_le(map, regs.drop_last());
    }
}

/// The stack pointer and the misalignment that saving the caller-saved registers
/// from frame `frame_pointer` leads to: eight bytes per saved register, then the
/// misalignment (the remainder by 16, rounded toward zero) is added once more.
pub open spec fn saved_frame(map: RegisterMap, frame_pointer: i32) -> (int, int) {
    let sp = frame_pointer + 8 * bound_count(map, caller_saved_regs_spec());
    let m = sp - (sp / 16) * 16;
    let m = if sp < 0 && m != 0 { m - 16 } else { m };
    (sp + m, m)
}

impl MacroAssembler {
    pub fn emit_push_reg(&mut self, reg: u32) -> (r: i32)
        requires
            reg != X64_RSP,
        ensures
            final(self)@ == old(self)@ + push_r_spec(reg),
            final(self).labels() == old(self).labels(),
            r == 8,
    {
        let _ = self.emit_pushq_r(reg);
        8
    }

    pub fn emit_pop_reg(&mut self, reg: u32) -> (r: i32)
        requires
            reg != X64_RSP,
        ensures
            final(self)@ == old(self)@ + pop_r_spec(reg),
            final(self).labels() == old(self).labels(),
            r == -8,
    {
        let _ = self.emit_popq_r(reg);
        -8
    }

    /// Pushes `reg` if it holds a MIPS register.
    pub fn emit_conditional_push_reg(&mut self, register_map: &RegisterMap, reg: u32) -> (r: i32)
        requires
            reg != X64_RSP,
        ensures
            final(self)@ == old(self)@ + (if register_map.gpr_bound_spec(reg) {
                push_r_spec(reg)
            } else {
                seq![]
            }),
            final(self).labels() == old(self).labels(),
            r == (if register_map.gpr_bound_spec(reg) { 8int } else { 0int }),
    {
        if register_map.gpr_is_bound(reg) {
            self.emit_push_reg(reg)
        } else {
            assert(self@ =~= old(self)@ + seq![]);
            0
        }
    }

    /// Pops `reg` if it holds a MIPS register.
    pub fn emit_conditional_pop_reg(&mut self, register_map: &RegisterMap, reg: u32) -> (r: i32)
        requires
            reg != X64_RSP,
        ensures
            final(self)@ == old(self)@ + (if register_map.gpr_bound_spec(reg) {
                pop_r_spec(reg)
            } else {
                seq![]
            }),
            final(self).labels() == old(self).labels(),
            r == (if register_map.gpr_bound_spec(reg) { -8int } else { 0int }),
    {
        if register_map.gpr_is_bound(reg) {
            self.emit_pop_reg(reg)
        } else {
            assert(self@ =~= old(self)@ + seq![]);
            0
        }
    }

    /// Pushes the caller-saved registers that hold MIPS registers, then realigns the
    /// stack to 16 bytes; returns the new stack pointer and the misalignment.
    pub fn emit_save_caller_regs(&mut self, register_map: &RegisterMap, frame_pointer: i32) -> (r: (
        i32,
        i32,
    ))
        requires
            -0x4000_0000 <= frame_pointer <= 0x4000_0000,
        ensures
            final(self)@ == old(self)@ + pushes(*register_map, caller_saved_regs_spec()) + (if saved_frame(
                *register_map,
                frame_pointer,
            ).1 != 0 {
                add_ir_spec(true, -saved_frame(*register_map, frame_pointer).1 as i32, X64_RSP)
            } else {
                seq![]
            }),
            final(self).labels() == old(self).labels(),
            r.0 == saved_frame(*register_map, frame_pointer).0,
            r.1 == saved_frame(*register_map, frame_pointer).1,
    {
        let regs = MacroAssembler::caller_saved_regs();
        let ghost start = self@;
        let mut stack_pointer = frame_pointer;
        let mut k: usize = 0;
        while k < regs.len()
            invariant
                regs@ == caller_saved_regs_spec(),
                k <= regs@.len(),
                -0x4000_0000 <= frame_pointer <= 0x4000_0000,
                stack_pointer == frame_pointer + 8 * bound_count(*register_map, regs@.take(k as int)),
                bound_count(*register_map, regs@.take(k as int)) <= k,
                self@ == start + pushes(*register_map, regs@.take(k as int)),
                self.labels() == old(self).labels(),
            decreases regs@.len() - k,
        {
            let reg = regs[k];
            assert(regs@.take(k + 1).drop_last() =~= regs@.take(k as int));
            let delta = self.emit_conditional_push_reg(register_map, reg);
            stack_pointer = stack_pointer + delta;
            k = k + 1;
            assert(self@ =~= start + pushes(*register_map, regs@.take(k as int)));
        }
        assert(regs@.take(k as int) =~= regs@);
        let stack_misalignment = stack_pointer % 16;
        let ghost before = self@;
        if stack_misalignment != 0 {
            self.emit_addq_ir(-stack_misalignment, X64_RSP);
            stack_pointer = stack_pointer + stack_misalignment;
        }
        assert(self@ =~= before + (if stack_misalignment != 0 {
            add_ir_spec(true, (-stack_misalignment) as i32, X64_RSP)
        } else {
            seq![]
        }));
        (stack_pointer, stack_misalignment)
    }

    /// Undoes the realignment of `emit_save_caller_regs` and pops the caller-saved
    /// registers that hold MIPS registers, in reverse order; returns the stack pointer.
    pub fn emit_load_caller_regs(
        &mut self,
        register_map: &RegisterMap,
        frame_pointer: i32,
        stack_misalignment: i32,
    ) -> (r: i32)
        requires
            -0x4000_0000 <= frame_pointer <= 0x4000_0000,
            -16 < stack_misalignment < 16,
        ensures
            final(self)@ == old(self)@ + (if stack_misalignment != 0 {
                add_ir_spec(true, stack_misalignment, X64_RSP)
            } else {
                seq![]
            }) + pops(*register_map, caller_saved_regs_spec()),
            final(self).labels() == old(self).labels(),
            r == frame_pointer - stack_misalignment - 8 * bound_count(*register_map, caller_saved_regs_spec()),
    {
        let regs = MacroAssembler::caller_saved_regs();
        let mut stack_pointer = frame_pointer;
        if stack_misalignment != 0 {
            self.emit_addq_ir(stack_misalignment, X64_RSP);
            stack_pointer = stack_pointer - stack_misalignment;
        }
        let ghost start = self@;
        let mut k: usize = regs.len();
        proof {
            lemma_bound_count_le(*register_map, regs@);
            assert(regs@.take(k as int) =~= regs@);
        }
        while k > 0
            invariant
                regs@ == caller_saved_regs_spec(),
                k <= regs@.len(),
                -0x4000_0000 <= frame_pointer <= 0x4000_0000,
                -16 < stack_misalignment < 16,
                stack_pointer == frame_pointer - stack_misalignment - 8 * (bound_count(*register_map, regs@)
                    - bound_count(*register_map, regs@.take(k as int))),
                bound_count(*register_map, regs@.take(k as int)) <= bound_count(*register_map, regs@),
                bound_count(*register_map, regs@) <= 9,
                self@ + pops(*register_map, regs@.take(k as int)) == start + pops(*register_map, regs@),
                self.labels() == old(self).labels(),
            decreases k,
        {
            let reg = regs[k - 1];
            assert(regs@.take(k as int).drop_last() =~= regs@.take(k - 1));
            assert(regs@.take(k as int).last() == reg);
            let delta = self.emit_conditional_pop_reg(register_map, reg);
            stack_pointer = stack_pointer + delta;
            k = k - 1;
            assert(self@ + pops(*register_map, regs@.take(k as int)) =~= start + pops(*register_map, regs@));
        }
        assert(regs@.take(0) =~= Seq::<u32>::empty());
        assert(self@ =~= start + pops(*register_map, regs@));
        stack_pointer
    }
}

/// Restoring the caller-saved registers after saving them brings the stack pointer
/// back to the frame it started from.
pub proof fn lemma_load_undoes_save(map: RegisterMap, frame_pointer: i32)
    requires
        -0x4000_0000 <= frame_pointer <= 0x4000_0000,
    ensures
        saved_frame(map, frame_pointer).0 - saved_frame(map, frame_pointer).1 - 8 * bound_count(
            map,
            caller_saved_regs_spec(),
        ) == frame_pointer,
        -16 < saved_frame(map, frame_pointer).1 < 16,
{
    let sp = frame_pointer + 8 * bound_count(map, caller_saved_regs_spec());
    assert(sp - (sp / 16) * 16 == sp % 16);
}

} // verus!
