//! The R3000 general purpose registers, the program counter and 33/34.
use vstd::prelude::*;
use std::collections::VecDeque;
use super::Name;
use super::DelayedWrite;
use super::MaybeSet;

verus! {

/// A writable general purpose register together with its name.
pub struct MutReg<'a> {
    pub value: &'a mut u32,
    pub name: Name,
}

impl<'a> MutReg<'a> {
    pub fn new(value: &'a mut u32, name: Name) -> (r: Self)
        ensures
            *r.value == *old(value),
            *final(r.value) == *final(value),
            r.name == name,
    {
        MutReg { value, name }
    }
}

impl<'a> MaybeSet for Option<MutReg<'a>> {
    fn maybe_set(self, value: u32) -> (r: Option<Name>)
        ensures
            self is None ==> r is None,
            self matches Some(m) ==> *final(m.value) == value && r == Some(m.name),
    {
        match self {
            Some(reg) => {
                *reg.value = value;
                Some(reg.name)
            },
            None => None,
        }
    }
}

/// R0 to R31, then the program counter (index 32), HI (33) and LO (34).
pub struct R3000 {
    registers: [u32; 35],
}

/// The registers after applying one delayed write.
pub open spec fn apply_write(regs: Seq<u32>, write: DelayedWrite) -> Seq<u32> {
    match write.register_name {
        Name::Hi => regs.update(33, write.value),
        Name::Lo => regs.update(34, write.value),
        Name::Rn(idx) => if idx == 0 {
            regs
        } else {
            regs.update(idx as int, write.value)
        },
    }
}

impl View for R3000 {
    type V = Seq<u32>;

    closed spec fn view(&self) -> Seq<u32> {
        self.registers@
    }
}

impl R3000 {
    pub const PC_IDX: usize = 32;

    pub const HI_IDX: usize = 33;

    pub const LO_IDX: usize = 34;

    pub const RA_IDX: usize = 31;

    /// The register file always has 35 entries.
    pub proof fn lemma_len(&self)
        ensures
            self@.len() == 35,
    {
    }

    /// The value that general purpose register `idx` reads as.
    pub open spec fn gpr(&self, idx: int) -> u32 {
        if idx == 0 {
            0
        } else {
            self@[idx]
        }
    }

    /// The registers after reset: all zero but the program counter, which holds the
    /// BIOS entry point.
    pub open spec fn new_view() -> Seq<u32> {
        Seq::new(35, |i: int| 0u32).update(32, 0xbfc0_0000u32)
    }

    pub fn new() -> (r: Self)
        ensures
            r@ == Self::new_view(),
    {
        let mut registers = [0u32; 35];
        registers[R3000::PC_IDX] = 0xbfc0_0000;
        let r = R3000 { registers };
        assert(r@ =~= Self::new_view());
        r
    }

    /// General purpose register `idx`; R0 always reads as zero.
    pub fn nth_reg(&self, idx: u32) -> (r: u32)
        requires
            idx < 32,
        ensures
            r == self.gpr(idx as int),
    {
        let idx = idx as usize;
        if idx == 0 {
            0
        } else {
            self.registers[idx]
        }
    }

    /// A writable handle on general purpose register `idx`, none for R0.
    pub fn nth_reg_mut(&mut self, idx: u32) -> (r: Option<MutReg>)
        requires
            idx < 32,
        ensures
            idx == 0 ==> r is None && final(self)@ == old(self)@,
            idx != 0 ==> (r matches Some(m) && m.name == Name::Rn(idx) && *m.value == old(self)@[
                idx as int] && final(self)@ == old(self)@.update(idx as int, *final(m.value))),
    {
        let idx = idx as usize;
        if idx == 0 {
            None
        } else {
            Some(MutReg::new(&mut self.registers[idx], Name::Rn(idx as u32)))
        }
    }

    /// A writable handle on the return address register R31.
    pub fn ra_mut(&mut self) -> (r: Option<MutReg>)
        ensures
            r matches Some(m) && m.name == Name::Rn(31) && *m.value == old(self)@[31]
                && final(self)@ == old(self)@.update(31, *final(m.value)),
    {
        self.nth_reg_mut(31)
    }

    pub fn pc(&self) -> (r: u32)
        ensures
            r == self@[32],
    {
        self.registers[R3000::PC_IDX]
    }

    pub fn pc_mut(&mut self) -> (r: &mut u32)
        ensures
            *r == old(self)@[32],
            final(self)@ == old(self)@.update(32, *final(r)),
    {
        &mut self.registers[R3000::PC_IDX]
    }

    pub fn lo(&self) -> (r: u32)
        ensures
            r == self@[34],
    {
        self.registers[R3000::LO_IDX]
    }

    pub fn lo_mut(&mut self) -> (r: &mut u32)
        ensures
            *r == old(self)@[34],
            final(self)@ == old(self)@.update(34, *final(r)),
    {
        &mut self.registers[R3000::LO_IDX]
    }

    pub fn hi(&self) -> (r: u32)
        ensures
            r == self@[33],
    {
        self.registers[R3000::HI_IDX]
    }

    pub fn hi_mut(&mut self) -> (r: &mut u32)
        ensures
            *r == old(self)@[33],
            final(self)@ == old(self)@.update(33, *final(r)),
    {
        &mut self.registers[R3000::HI_IDX]
    }

    /// Completes the oldest delayed load, unless the instruction that just ran wrote
    /// the same register itself (that write wins); then forgets which register the
    /// instruction wrote.
    pub fn flush_write_cache(
        &mut self,
        operations: &mut VecDeque<DelayedWrite>,
        modified_register: &mut Option<Name>,
    )
        requires
            old(operations)@.len() > 0 && *old(modified_register) != Some(old(operations)@[0].register_name)
                ==> old(operations)@[0].register_name.valid(),
        ensures
            *final(modified_register) is None,
            old(operations)@.len() == 0 ==> final(operations)@ == old(operations)@ && final(self)@
                == old(self)@,
            old(operations)@.len() > 0 ==> final(operations)@ == old(operations)@.drop_first(),
            old(operations)@.len() > 0 ==> final(self)@ == (if *old(modified_register) == Some(
                old(operations)@[0].register_name) {
                old(self)@
            } else {
                apply_write(old(self)@, old(operations)@[0])
            }),
    {
        match operations.pop_front() {
            Some(write) => {
                match modified_register {
                    Some(name) => {
                        if *name != write.register_name {
                            self.do_write(&write);
                        }
                    },
                    None => {
                        self.do_write(&write);
                    },
                }
            },
            None => {},
        };
        *modified_register = None;
    }

    fn do_write(&mut self, operation: &DelayedWrite)
        requires
            operation.register_name.valid(),
        ensures
            final(self)@ == apply_write(old(self)@, *operation),
    {
        match operation.register_name {
            Name::Hi => {
                *self.hi_mut() = operation.value;
            },
            Name::Lo => {
                *self.lo_mut() = operation.value;
            },
            Name::Rn(idx) => {
                self.nth_reg_mut(idx).maybe_set(operation.value);
            },
        }
    }
}

/// The register file index a name writes: its number for R0 to R31, 33 for HI, 34
/// for LO.
pub open spec fn name_index(name: Name) -> u32 {
    match name {
        Name::Rn(idx) => idx,
        Name::Hi => 33,
        Name::Lo => 34,
    }
}

/// The registers after the stores `writes` (register file index, value), in order.
/// A store to R0 or past LO changes nothing; every write of this module (through
/// `nth_reg_mut`, `ra_mut`, `pc_mut`, `hi_mut`, `lo_mut` or a completed delayed load)
/// is such a store.
pub open spec fn stored(regs: Seq<u32>, writes: Seq<(u32, u32)>) -> Seq<u32>
    decreases writes.len(),
{
    if writes.len() == 0 {
        regs
    } else {
        let prev = stored(regs, writes.drop_last());
        let w = writes.last();
        if w.0 == 0 || w.0 >= 35 {
            prev
        } else {
            prev.update(w.0 as int, w.1)
        }
    }
}

/// The value of the last of `writes` that stores into index `idx`, if any.
pub open spec fn last_stored(writes: Seq<(u32, u32)>, idx: u32) -> Option<u32>
    decreases writes.len(),
{
    if writes.len() == 0 {
        None
    } else if writes.last().0 == idx {
        Some(writes.last().1)
    } else {
        last_stored(writes.drop_last(), idx)
    }
}

/// What register file entry `idx` reads as: zero for R0.
pub open spec fn read_entry(regs: Seq<u32>, idx: u32) -> u32 {
    if idx == 0 {
        0
    } else {
        regs[idx as int]
    }
}

/// Completing a delayed load is a store to the register it names.
pub proof fn lemma_delayed_write_is_store(regs: Seq<u32>, write: DelayedWrite)
    requires
        regs.len() == 35,
        write.register_name.valid(),
    ensures
        apply_write(regs, write) == stored(regs, seq![(name_index(write.register_name), write.value)]),
{
    let writes = seq![(name_index(write.register_name), write.value)];
    assert(writes.drop_last() =~= Seq::<(u32, u32)>::empty());
    assert(stored(regs, writes.drop_last()) == regs);
    assert(writes.last() == (name_index(write.register_name), write.value));
}

/// A write through `nth_reg_mut`, `ra_mut`, `pc_mut`, `hi_mut` or `lo_mut` (an update
/// of entry `idx`, which is never R0) is a store.
pub proof fn lemma_update_is_store(regs: Seq<u32>, idx: u32, value: u32)
    requires
        regs.len() == 35,
        0 < idx < 35,
    ensures
        regs.update(idx as int, value) == stored(regs, seq![(idx, value)]),
{
    let writes = seq![(idx, value)];
    assert(writes.drop_last() =~= Seq::<(u32, u32)>::empty());
    assert(stored(regs, writes.drop_last()) == regs);
}

/// After any sequence of stores, each register reads as the last value stored into
/// it, or as before when nothing was stored into it; R0 always reads as zero.
pub proof fn lemma_read_after_writes(regs: Seq<u32>, writes: Seq<(u32, u32)>, idx: u32)
    requires
        regs.len() == 35,
        idx < 35,
    ensures
        stored(regs, writes).len() == 35,
        read_entry(stored(regs, writes), idx) == (if idx == 0 {
            0
        } else {
            match last_stored(writes, idx) {
                Some(v) => v,
                None => regs[idx as int],
            }
        }),
    decreases writes.len(),
{
    if writes.len() > 0 {
        lemma_read_after_writes(regs, writes.drop_last(), idx);
    }
}

/// From reset, each register reads as the last value stored into it, zero when
/// nothing was (the program counter starts at the BIOS entry point).
pub proof fn lemma_read_after_writes_from_reset(writes: Seq<(u32, u32)>, idx: u32)
    requires
        idx < 32,
    ensures
        read_entry(stored(R3000::new_view(), writes), idx) == (match last_stored(writes, idx) {
            Some(v) => if idx == 0 { 0 } else { v },
            None => 0,
        }),
{
    lemma_read_after_writes(R3000::new_view(), writes, idx);
}

/// Reading a general purpose register gives back what was last written to it
/// (for every register but R0, which always reads as zero).
pub proof fn lemma_read_after_write(old_regs: R3000, new_regs: R3000, idx: u32, value: u32)
    requires
        idx < 32,
        new_regs@ == (if idx == 0 { old_regs@ } else { old_regs@.update(idx as int, value) }),
    ensures
        new_regs.gpr(idx as int) == (if idx == 0 { 0 } else { value }),
        forall|j: int| 0 <= j < 32 && j != idx ==> new_regs.gpr(j) == old_regs.gpr(j),
{
    old_regs.lemma_len();
}

} // verus!
