//! Coprocessor 2, the geometry transformation engine: its data and control registers.
use vstd::prelude::*;

verus! {

pub struct GTE {
    data_registers: [u32; 32],
    ctrl_registers: [u32; 32],
}

impl GTE {
    /// The 32 data registers.
    pub closed spec fn data(&self) -> Seq<u32> {
        self.data_registers@
    }

    /// The 32 control registers.
    pub closed spec fn ctrl(&self) -> Seq<u32> {
        self.ctrl_registers@
    }

    pub proof fn lemma_len(&self)
        ensures
            self.data().len() == 32,
            self.ctrl().len() == 32,
    {
    }

    pub fn new() -> (r: Self)
        ensures
            r.data() == Seq::new(32, |i: int| 0u32),
            r.ctrl() == Seq::new(32, |i: int| 0u32),
    {
        let r = GTE { data_registers: [0u32; 32], ctrl_registers: [0u32; 32] };
        assert(r.data() =~= Seq::new(32, |i: int| 0u32));
        assert(r.ctrl() =~= Seq::new(32, |i: int| 0u32));
        r
    }

    pub fn nth_data_reg(&self, idx: u32) -> (r: u32)
        requires
            idx < 32,
        ensures
            r == self.data()[idx as int],
    {
        self.data_registers[idx as usize]
    }

    pub fn nth_data_reg_mut(&mut self, idx: u32) -> (r: Option<&mut u32>)
        requires
            idx < 32,
        ensures
            r matches Some(m) && *m == old(self).data()[idx as int] && final(self).data() == old(self).data().update(idx as int, *final(m)) && final(self).ctrl() == old(self).ctrl(),
    {
        Some(&mut self.data_registers[idx as usize])
    }

    pub fn nth_ctrl_reg(&self, idx: u32) -> (r: u32)
        requires
            idx < 32,
        ensures
            r == self.ctrl()[idx as int],
    {
        self.ctrl_registers[idx as usize]
    }

    pub fn nth_ctrl_reg_mut(&mut self, idx: u32) -> (r: Option<&mut u32>)
        requires
            idx < 32,
        ensures
            r matches Some(m) && *m == old(self).ctrl()[idx as int] && final(self).ctrl() == old(self).ctrl().update(idx as int, *final(m)) && final(self).data() == old(self).data(),
    {
        Some(&mut self.ctrl_registers[idx as usize])
    }

    /// BC2F: the branch is taken, to the given offset.
    pub fn bcnf(&self, imm16: u32) -> (r: Option<u32>)
        ensures
            r == Some(imm16),
    {
        Some(imm16)
    }

    /// GTE commands are not computed; no command branches.
    pub fn execute_command(&mut self, imm25: u32) -> (r: Option<u32>)
        ensures
            r is None,
            *final(self) == *old(self),
    {
        None
    }
}

} // verus!
