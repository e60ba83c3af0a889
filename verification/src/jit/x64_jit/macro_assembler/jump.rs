//! Short jumps, to relative targets and to labels.
use vstd::prelude::*;
use super::{MacroAssembler, Label};

verus! {

impl MacroAssembler {
    /// One placeholder byte for an 8-bit displacement to `label`, recorded as the
    /// label's use.
    fn emit_label_placeholder(&mut self, label: Label)
        requires
            old(self).wf(),
        ensures
            final(self).wf(),
            final(self)@ == old(self)@.push(0xff),
            final(self).next_label_spec() == old(self).next_label_spec(),
            final(self).label_use(label) == Some(old(self)@.len() as usize),
            forall|l: Label| l != label ==> final(self).label_use(l) == old(self).label_use(l),
            final(self).labels().2 == old(self).labels().2,
            final(self).labels().3 == old(self).labels().3,
    {
        let placeholder_location = self.len();
        self.push(0xff);
        self.use_label(label, placeholder_location);
    }

    /// A short jump with opcode `opcode` to a label.
    fn emit_jcc_label(&mut self, opcode: u8, label: Label)
        requires
            old(self).wf(),
        ensures
            final(self).wf(),
            final(self)@ == old(self)@ + seq![opcode, 0xffu8],
            final(self).next_label_spec() == old(self).next_label_spec(),
            final(self).label_use(label) == Some((old(self)@.len() + 1) as usize),
            forall|l: Label| l != label ==> final(self).label_use(l) == old(self).label_use(l),
            final(self).labels().2 == old(self).labels().2,
            final(self).labels().3 == old(self).labels().3,
    {
        self.push(opcode);
        self.emit_label_placeholder(label);
        assert(self@ =~= old(self)@ + seq![opcode, 0xffu8]);
    }

    /// JMP rel8.
    pub fn emit_jmp_rel8(&mut self, offset: i8)
        ensures
            final(self)@ == old(self)@ + seq![0xebu8, offset as u8],
            final(self).labels() == old(self).labels(),
    {
        self.push(0xeb);
        self.push(offset as u8);
        assert(self@ =~= old(self)@ + seq![0xebu8, offset as u8]);
    }

    /// JMP to a label.
    pub fn emit_jmp_label(&mut self, label: Label)
        requires
            old(self).wf(),
        ensures
            final(self).wf(),
            final(self)@ == old(self)@ + seq![0xebu8, 0xff],
            final(self).next_label_spec() == old(self).next_label_spec(),
            final(self).label_use(label) == Some((old(self)@.len() + 1) as usize),
            forall|l: Label| l != label ==> final(self).label_use(l) == old(self).label_use(l),
            final(self).labels().2 == old(self).labels().2,
            final(self).labels().3 == old(self).labels().3,
    {
        self.emit_jcc_label(0xeb, label);
    }

    /// JAE rel8.
    pub fn emit_jae_rel8(&mut self, offset: i8)
        ensures
            final(self)@ == old(self)@ + seq![0x73u8, offset as u8],
            final(self).labels() == old(self).labels(),
    {
        self.push(0x73);
        self.push(offset as u8);
        assert(self@ =~= old(self)@ + seq![0x73u8, offset as u8]);
    }

    /// JB rel8.
    pub fn emit_jb_rel8(&mut self, offset: i8)
        ensures
            final(self)@ == old(self)@ + seq![0x72u8, offset as u8],
            final(self).labels() == old(self).labels(),
    {
        self.push(0x72);
        self.push(offset as u8);
        assert(self@ =~= old(self)@ + seq![0x72u8, offset as u8]);
    }

    /// JAE to a label.
    pub fn emit_jae_label(&mut self, label: Label)
        requires
            old(self).wf(),
        ensures
            final(self).wf(),
            final(self)@ == old(self)@ + seq![0x73u8, 0xff],
            final(self).next_label_spec() == old(self).next_label_spec(),
            final(self).label_use(label) == Some((old(self)@.len() + 1) as usize),
            forall|l: Label| l != label ==> final(self).label_use(l) == old(self).label_use(l),
            final(self).labels().2 == old(self).labels().2,
            final(self).labels().3 == old(self).labels().3,
    {
        self.emit_jcc_label(0x73, label);
    }

    /// JB to a label.
    pub fn emit_jb_label(&mut self, label: Label)
        requires
            old(self).wf(),
        ensures
            final(self).wf(),
            final(self)@ == old(self)@ + seq![0x72u8, 0xff],
            final(self).next_label_spec() == old(self).next_label_spec(),
            final(self).label_use(label) == Some((old(self)@.len() + 1) as usize),
            forall|l: Label| l != label ==> final(self).label_use(l) == old(self).label_use(l),
            final(self).labels().2 == old(self).labels().2,
            final(self).labels().3 == old(self).labels().3,
    {
        self.emit_jcc_label(0x72, label);
    }
}

} // verus!
