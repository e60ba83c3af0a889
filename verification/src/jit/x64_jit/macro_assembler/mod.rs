//! An assembler for the x86-64 instructions the JIT emits, into a byte buffer.
//!
//! Registers are numbered 0 to 15 (RAX to R15); an instruction names the low three
//! bits of a register in its opcode or ModRM byte, and bit 3 in a REX prefix.
use vstd::prelude::*;
use crate::register::{lowest_bits, nth_bit, nth_bit_bool, byte};
use super::register_allocator::{X64_RSP, X64_RBX, X64_RBP, X64_R12, X64_R13, X64_R14, X64_R15};

pub mod alu;
pub mod bt;
pub mod call;
pub mod jump;
pub mod mov;
pub mod stack;
pub mod xchg;

verus! {

/// A label: an index handed out by `create_undefined_label`.
pub type Label = usize;

/// The low three bits of a register number, as they go into an instruction.
pub open spec fn low3(r: u32) -> nat {
    (r % 8) as nat
}

/// Whether a register is one of R8 to R15 (bit 3 of its number).
pub open spec fn high_reg(r: u32) -> bool {
    (r / 8) % 2 == 1
}

/// REX.B (0x41) when the register in the ModRM r/m field or the opcode is R8 to R15.
pub open spec fn rexb(r: u32) -> Seq<u8> {
    if high_reg(r) {
        seq![0x41u8]
    } else {
        seq![]
    }
}

/// A REX prefix carrying R (for `reg`) and B (for `rm`), when either is needed.
pub open spec fn rexrb(reg: u32, rm: u32) -> Seq<u8> {
    if high_reg(reg) || high_reg(rm) {
        seq![(0x40 + (if high_reg(rm) { 1int } else { 0 }) + (if high_reg(reg) { 4int } else { 0 })) as u8]
    } else {
        seq![]
    }
}

/// REX.W (0x48) with B for `rm` and R for `reg`.
pub open spec fn rexw(reg: u32, rm: u32) -> u8 {
    (0x48 + (if high_reg(rm) { 1int } else { 0 }) + (if high_reg(reg) { 4int } else { 0 })) as u8
}

/// A ModRM byte: addressing mode `md` (0x00, 0x40, 0x80 or 0xc0), register field
/// `reg` and r/m field `rm`.
pub open spec fn modrm(md: nat, reg: nat, rm: u32) -> u8 {
    (md + reg * 8 + low3(rm)) as u8
}

/// A register operand in r/m form that needs a SIB byte (RSP, R12) gets 0x24.
pub open spec fn sib(ptr: u32) -> Seq<u8> {
    if low3(ptr) == 4 {
        seq![0x24u8]
    } else {
        seq![]
    }
}

/// The little-endian bytes of a half word.
pub open spec fn le16(x: u16) -> Seq<u8> {
    seq![(x % 0x100) as u8, (x / 0x100) as u8]
}

/// The little-endian bytes of a word.
pub open spec fn le32(x: u32) -> Seq<u8> {
    seq![(x % 0x100) as u8, (x / 0x100 % 0x100) as u8, (x / 0x1_0000 % 0x100) as u8, (x / 0x100_0000) as u8]
}

/// The little-endian bytes of a double word.
pub open spec fn le64(x: u64) -> Seq<u8> {
    le32((x % 0x1_0000_0000) as u32) + le32((x / 0x1_0000_0000) as u32)
}

/// A displacement: one byte when it fits in a signed byte, else four.
pub open spec fn disp(offset: i32) -> Seq<u8> {
    if -128 <= offset <= 127 {
        seq![offset as u8]
    } else {
        le32(offset as u32)
    }
}

/// The registers that a block may use freely: all but the stack pointer.
pub open spec fn free_regs_spec() -> Seq<u32> {
    Seq::new(15, |i: int| (if i < 4 { i } else { i + 1 }) as u32)
}

/// How many free registers are below `x`.
pub open spec fn free_below(x: u32) -> int {
    if x <= 4 { x as int } else { x - 1 }
}

/// The registers that a call may clobber (System V): RAX, RCX, RDX, RSI, RDI and
/// R8 to R11.
pub open spec fn caller_saved_regs_spec() -> Seq<u32> {
    Seq::new(9, |i: int| (if i < 3 { i } else { i + 3 }) as u32)
}

/// How many caller-saved registers are below `x`.
pub open spec fn caller_saved_below(x: u32) -> int {
    if x <= 3 { x as int } else if x <= 6 { 3 } else if x <= 12 { x - 3 } else { 9 }
}

/// The bytes that saving R12 to R15 (the registers a block reserves) emits.
pub open spec fn save_reserved_spec() -> Seq<u8> {
    seq![0x41u8, 0x54, 0x41, 0x55, 0x41, 0x56, 0x41, 0x57]
}

/// Machine code under construction, with the labels handed out, where each label
/// was last used by a one-byte placeholder and by a four-byte placeholder (the
/// position of the placeholder), and where each was defined.
pub struct MacroAssembler {
    buffer: Vec<u8>,
    next_label: usize,
    labels_used: Vec<(Label, usize)>,
    labels_defined: Vec<(Label, usize)>,
    wide_labels_used: Vec<(Label, usize)>,
}

impl View for MacroAssembler {
    type V = Seq<u8>;

    closed spec fn view(&self) -> Seq<u8> {
        self.buffer@
    }
}

/// Each label occurs at most once in an association list.
pub open spec fn keys_unique(v: Seq<(Label, usize)>) -> bool {
    forall|i: int, j: int| 0 <= i < v.len() && 0 <= j < v.len() && i != j ==> v[i].0 != v[j].0
}

/// What an association list maps a label to.
pub open spec fn lookup(v: Seq<(Label, usize)>, label: Label) -> Option<usize> {
    if exists|i: int| 0 <= i < v.len() && v[i].0 == label {
        let i = choose|i: int| 0 <= i < v.len() && v[i].0 == label;
        Some(v[i].1)
    } else {
        None
    }
}

/// Maps `label` to `value` in an association list, replacing what it mapped to.
fn assoc_insert(v: &mut Vec<(Label, usize)>, label: Label, value: usize)
    requires
        keys_unique(old(v)@),
    ensures
        keys_unique(final(v)@),
        lookup(final(v)@, label) == Some(value),
        forall|l: Label| l != label ==> lookup(final(v)@, l) == lookup(old(v)@, l),
{
    let mut i: usize = 0;
    while i < v.len()
        invariant
            i <= v@.len(),
            v@ == old(v)@,
            keys_unique(v@),
            forall|k: int| 0 <= k < i ==> v@[k].0 != label,
        decreases v@.len() - i,
    {
        if v[i].0 == label {
            let ghost before = v@;
            v.set(i, (label, value));
            proof {
                assert(v@[i as int].0 == label);
                assert forall|l: Label| l != label implies lookup(v@, l) == lookup(before, l) by {
                    if exists|k: int| 0 <= k < before.len() && before[k].0 == l {
                        let k = choose|k: int| 0 <= k < before.len() && before[k].0 == l;
                        assert(v@[k].0 == l);
                    }
                    if exists|k: int| 0 <= k < v@.len() && v@[k].0 == l {
                        let k = choose|k: int| 0 <= k < v@.len() && v@[k].0 == l;
                        assert(before[k].0 == l);
                    }
                }
            }
            return;
        }
        i = i + 1;
    }
    let ghost before = v@;
    v.push((label, value));
    proof {
        let n = before.len() as int;
        assert(v@[n].0 == label);
        assert forall|l: Label| l != label implies lookup(v@, l) == lookup(before, l) by {
            if exists|k: int| 0 <= k < before.len() && before[k].0 == l {
                let k = choose|k: int| 0 <= k < before.len() && before[k].0 == l;
                assert(v@[k].0 == l);
            }
            if exists|k: int| 0 <= k < v@.len() && v@[k].0 == l {
                let k = choose|k: int| 0 <= k < v@.len() && v@[k].0 == l;
                assert(k != n);
                assert(before[k].0 == l);
            }
        }
    }
}

/// Inserting a value below `bound` keeps every value below `bound`.
proof fn lemma_assoc_values(
    before: Seq<(Label, usize)>,
    after: Seq<(Label, usize)>,
    label: Label,
    value: usize,
    bound: nat,
)
    requires
        keys_unique(before),
        keys_unique(after),
        value < bound,
        forall|i: int| 0 <= i < before.len() ==> before[i].1 < bound,
        lookup(after, label) == Some(value),
        forall|l: Label| l != label ==> lookup(after, l) == lookup(before, l),
    ensures
        forall|i: int| 0 <= i < after.len() ==> after[i].1 < bound,
{
    assert forall|i: int| 0 <= i < after.len() implies after[i].1 < bound by {
        let l = after[i].0;
        assert(exists|k: int| 0 <= k < after.len() && after[k].0 == l);
        let k = choose|k: int| 0 <= k < after.len() && after[k].0 == l;
        assert(k == i);
        if l != label {
            assert(lookup(before, l) == Some(after[i].1));
            let j = choose|j: int| 0 <= j < before.len() && before[j].0 == l;
            assert(before[j].1 == after[i].1);
        }
    }
}

/// What the placeholder at `loc` is given so that it reaches `def`: the distance
/// from the byte after the placeholder, in one byte when it fits, else in two, else
/// in four (little-endian).
pub open spec fn patch(bytes: Seq<u8>, loc: int, def: int) -> Seq<u8> {
    let rel = def - loc - 1;
    let v = crate::register::wrap32(rel);
    let b0 = bytes.update(loc, (v % 0x100) as u8);
    if -0x80 <= rel <= 0x7f {
        b0
    } else if -0x8000 <= rel <= 0x7fff {
        b0.update(loc + 1, (v / 0x100 % 0x100) as u8)
    } else {
        b0.update(loc + 1, (v / 0x100 % 0x100) as u8).update(loc + 2, (v / 0x1_0000 % 0x100) as u8)
            .update(loc + 3, (v / 0x100_0000) as u8)
    }
}

/// What the four-byte placeholder at `loc` is given so that it reaches `def`: the
/// distance from the byte after the placeholder, little-endian.
pub open spec fn patch_wide(bytes: Seq<u8>, loc: int, def: int) -> Seq<u8> {
    crate::common::word_stored(bytes, loc, crate::register::wrap32(def - loc - 4))
}

/// The code with the four-byte placeholders of `uses` filled in, in order.
pub open spec fn patch_all_wide(bytes: Seq<u8>, uses: Seq<(Label, usize)>, defs: Seq<(Label, usize)>) -> Seq<u8>
    decreases uses.len(),
{
    if uses.len() == 0 {
        bytes
    } else {
        patch_wide(
            patch_all_wide(bytes, uses.drop_last(), defs),
            uses.last().1 as int,
            lookup(defs, uses.last().0)->0 as int,
        )
    }
}

/// The code with the placeholders of `uses` filled in, in order.
pub open spec fn patch_all(bytes: Seq<u8>, uses: Seq<(Label, usize)>, defs: Seq<(Label, usize)>) -> Seq<u8>
    decreases uses.len(),
{
    if uses.len() == 0 {
        bytes
    } else {
        patch(
            patch_all(bytes, uses.drop_last(), defs),
            uses.last().1 as int,
            lookup(defs, uses.last().0)->0 as int,
        )
    }
}

/// The bytes that restoring R15 to R12 emits.
pub open spec fn load_reserved_spec() -> Seq<u8> {
    seq![0x41u8, 0x5f, 0x41, 0x5e, 0x41, 0x5d, 0x41, 0x5c]
}

/// Where `label` is in an association list whose labels are unique.
fn find_label(v: &Vec<(Label, usize)>, label: Label) -> (r: Option<usize>)
    requires
        keys_unique(v@),
    ensures
        r == lookup(v@, label),
{
    let mut i: usize = 0;
    while i < v.len()
        invariant
            i <= v@.len(),
            keys_unique(v@),
            forall|k: int| 0 <= k < i ==> v@[k].0 != label,
        decreases v@.len() - i,
    {
        if v[i].0 == label {
            proof {
                assert(v@[i as int].0 == label);
                let k = choose|k: int| 0 <= k < v@.len() && v@[k].0 == label;
                assert(k == i as int);
            }
            return Some(v[i].1);
        }
        i = i + 1;
    }
    None
}

impl MacroAssembler {
    /// The labels: how many were handed out, where each was last used by a one-byte
    /// placeholder, where each was defined, and where each was last used by a
    /// four-byte placeholder.
    pub closed spec fn labels(&self) -> (usize, Seq<(Label, usize)>, Seq<(Label, usize)>, Seq<(Label, usize)>) {
        (self.next_label, self.labels_used@, self.labels_defined@, self.wide_labels_used@)
    }

    pub open spec fn next_label_spec(&self) -> usize {
        self.labels().0
    }

    pub open spec fn label_use(&self, label: Label) -> Option<usize> {
        lookup(self.labels().1, label)
    }

    pub open spec fn label_definition(&self, label: Label) -> Option<usize> {
        lookup(self.labels().2, label)
    }

    pub open spec fn label_wide_use(&self, label: Label) -> Option<usize> {
        lookup(self.labels().3, label)
    }

    /// Each label is recorded once as used and once as defined, every placeholder
    /// lies inside the code and every definition at most at its end.
    pub open spec fn wf(&self) -> bool {
        &&& keys_unique(self.labels().1)
        &&& keys_unique(self.labels().2)
        &&& forall|i: int| 0 <= i < self.labels().1.len() ==> #[trigger] self.labels().1[i].1 < self@.len()
        &&& forall|i: int| 0 <= i < self.labels().2.len() ==> #[trigger] self.labels().2[i].1 <= self@.len()
        &&& keys_unique(self.labels().3)
        &&& forall|i: int| 0 <= i < self.labels().3.len() ==> #[trigger] self.labels().3[i].1 + 3 < self@.len()
    }

    /// An assembler whose code starts by saving R12 to R15.
    pub fn new() -> (r: Self)
        ensures
            r.wf(),
            r@ == save_reserved_spec(),
            r.next_label_spec() == 0,
            forall|l: Label|
                r.label_use(l) is None && r.label_definition(l) is None && r.label_wide_use(l) is None,
    {
        let mut masm = MacroAssembler {
            buffer: Vec::new(),
            next_label: 0,
            labels_used: Vec::new(),
            labels_defined: Vec::new(),
            wide_labels_used: Vec::new(),
        };
        masm.save_reserved_registers();
        assert(masm.buffer@ =~= save_reserved_spec());
        masm
    }

    /// The number of bytes emitted so far.
    pub fn len(&self) -> (r: usize)
        ensures
            r == self@.len(),
    {
        self.buffer.len()
    }

    /// The code emitted so far.
    pub fn bytes(&self) -> (r: &Vec<u8>)
        ensures
            r@ == self@,
    {
        &self.buffer
    }

    /// A new label, not yet defined.
    pub fn create_undefined_label(&mut self) -> (r: Label)
        requires
            old(self).next_label_spec() < usize::MAX,
        ensures
            r == old(self).next_label_spec(),
            final(self).next_label_spec() == old(self).next_label_spec() + 1,
            final(self)@ == old(self)@,
            final(self).labels().1 == old(self).labels().1,
            final(self).labels().2 == old(self).labels().2,
            final(self).labels().3 == old(self).labels().3,
    {
        self.next_label = self.next_label + 1;
        self.next_label - 1
    }

    /// Defines `label` as the current end of the code.
    pub fn define_label(&mut self, label: Label)
        requires
            old(self).wf(),
        ensures
            final(self).wf(),
            final(self)@ == old(self)@,
            final(self).next_label_spec() == old(self).next_label_spec(),
            final(self).label_definition(label) == Some(old(self)@.len() as usize),
            forall|l: Label| l != label ==> final(self).label_definition(l) == old(self).label_definition(l),
            final(self).labels().1 == old(self).labels().1,
            final(self).labels().3 == old(self).labels().3,
    {
        let here = self.buffer.len();
        assoc_insert(&mut self.labels_defined, label, here);
        proof {
            lemma_assoc_values(old(self).labels_defined@, self.labels_defined@, label, here, here as nat + 1);
        }
    }

    /// Records a use of `label` whose placeholder starts at `location`.
    fn use_label(&mut self, label: Label, location: usize)
        requires
            old(self).wf(),
            location < old(self)@.len(),
        ensures
            final(self).wf(),
            final(self)@ == old(self)@,
            final(self).next_label_spec() == old(self).next_label_spec(),
            final(self).label_use(label) == Some(location),
            forall|l: Label| l != label ==> final(self).label_use(l) == old(self).label_use(l),
            final(self).labels().2 == old(self).labels().2,
            final(self).labels().3 == old(self).labels().3,
    {
        assoc_insert(&mut self.labels_used, label, location);
        proof {
            lemma_assoc_values(old(self).labels_used@, self.labels_used@, label, location, old(self)@.len());
        }
    }

    /// Records a use of `label` whose four-byte placeholder starts at `location`.
    fn use_wide_label(&mut self, label: Label, location: usize)
        requires
            old(self).wf(),
            location + 3 < old(self)@.len(),
        ensures
            final(self).wf(),
            final(self)@ == old(self)@,
            final(self).next_label_spec() == old(self).next_label_spec(),
            final(self).label_wide_use(label) == Some(location),
            forall|l: Label| l != label ==> final(self).label_wide_use(l) == old(self).label_wide_use(l),
            final(self).labels().1 == old(self).labels().1,
            final(self).labels().2 == old(self).labels().2,
    {
        assoc_insert(&mut self.wide_labels_used, label, location);
        proof {
            lemma_assoc_values(
                old(self).wide_labels_used@,
                self.wide_labels_used@,
                label,
                location,
                (old(self)@.len() - 3) as nat,
            );
        }
    }

    /// Appends one byte.
    fn push(&mut self, b: u8)
        ensures
            final(self)@ == old(self)@.push(b),
            final(self).labels() == old(self).labels(),
    {
        self.buffer.push(b);
    }

    fn save_reserved_registers(&mut self)
        ensures
            final(self)@ == old(self)@ + save_reserved_spec(),
            final(self).labels() == old(self).labels(),
    {
        let ghost start = self@;
        let _ = self.emit_pushq_r(12);
        let _ = self.emit_pushq_r(13);
        let _ = self.emit_pushq_r(14);
        let _ = self.emit_pushq_r(15);
        proof {
            vstd::arithmetic::power2::lemma2_to64();
        }
        assert(self@ =~= start + save_reserved_spec());
    }

    /// Restores R15 to R12 (popped in the reverse order of `new`).
    pub fn load_reserved_registers(&mut self)
        ensures
            final(self)@ == old(self)@ + load_reserved_spec(),
            final(self).labels() == old(self).labels(),
    {
        let ghost start = self@;
        let _ = self.emit_popq_r(15);
        let _ = self.emit_popq_r(14);
        let _ = self.emit_popq_r(13);
        let _ = self.emit_popq_r(12);
        assert(self@ =~= start + load_reserved_spec());
    }

    /// RET.
    pub fn emit_ret(&mut self)
        ensures
            final(self)@ == old(self)@.push(0xc3),
            final(self).labels() == old(self).labels(),
    {
        self.push(0xc3);
    }

    /// NOP.
    pub fn emit_nop(&mut self)
        ensures
            final(self)@ == old(self)@.push(0x90),
            final(self).labels() == old(self).labels(),
    {
        self.push(0x90);
    }

    /// REX.B when `reg` is R8 to R15.
    fn emit_conditional_rexb(&mut self, reg: u32)
        ensures
            final(self)@ == old(self)@ + rexb(reg),
            final(self).labels() == old(self).labels(),
    {
        proof {
            vstd::arithmetic::power2::lemma2_to64();
        }
        if nth_bit_bool(reg, 3) {
            self.push(0x41);
        }
        assert(self@ =~= old(self)@ + rexb(reg));
    }

    /// A REX prefix with R for `reg1` and B for `reg2`, when either is R8 to R15.
    fn emit_conditional_rexrb(&mut self, reg1: u32, reg2: u32)
        ensures
            final(self)@ == old(self)@ + rexrb(reg1, reg2),
            final(self).labels() == old(self).labels(),
    {
        proof {
            vstd::arithmetic::power2::lemma2_to64();
        }
        let r = nth_bit(reg1, 3) as u8;
        let b = nth_bit(reg2, 3) as u8;
        if r != 0 || b != 0 {
            self.push(0x40 + b + r * 4);
        }
        assert(self@ =~= old(self)@ + rexrb(reg1, reg2));
    }

    /// The B bit of REX for `reg`.
    fn conditional_rexb(reg: u32) -> (r: u8)
        ensures
            r == (if high_reg(reg) { 1u8 } else { 0u8 }),
    {
        proof {
            vstd::arithmetic::power2::lemma2_to64();
        }
        nth_bit(reg, 3) as u8
    }

    /// The R bit of REX for `reg`.
    fn conditional_rexr(reg: u32) -> (r: u8)
        ensures
            r == (if high_reg(reg) { 4u8 } else { 0u8 }),
    {
        proof {
            vstd::arithmetic::power2::lemma2_to64();
        }
        (nth_bit(reg, 3) * 4) as u8
    }

    /// A ModRM byte (see `modrm`).
    fn modrm_byte(md: u8, reg: u32, rm: u32) -> (r: u8)
        requires
            md == 0x00 || md == 0x40 || md == 0x80 || md == 0xc0,
        ensures
            r == modrm(md as nat, low3(reg), rm),
    {
        proof {
            vstd::arithmetic::power2::lemma2_to64();
        }
        md + (lowest_bits(reg, 3) as u8) * 8 + lowest_bits(rm, 3) as u8
    }

    /// An opcode byte that names a register in its low three bits.
    fn opcode_reg(opcode: u8, reg: u32) -> (r: u8)
        requires
            opcode % 8 == 0,
        ensures
            r == (opcode + low3(reg)) as u8,
    {
        proof {
            vstd::arithmetic::power2::lemma2_to64();
        }
        opcode + lowest_bits(reg, 3) as u8
    }

    /// The operand size prefix for 16-bit operations.
    fn emit_16bit_prefix(&mut self)
        ensures
            final(self)@ == old(self)@.push(0x66),
            final(self).labels() == old(self).labels(),
    {
        self.push(0x66);
    }

    fn emit_imm16(&mut self, imm16: u16)
        ensures
            final(self)@ == old(self)@ + le16(imm16),
            final(self).labels() == old(self).labels(),
    {
        self.push((imm16 % 0x100) as u8);
        self.push((imm16 / 0x100) as u8);
        assert(self@ =~= old(self)@ + le16(imm16));
    }

    fn emit_imm32(&mut self, imm32: u32)
        ensures
            final(self)@ == old(self)@ + le32(imm32),
            final(self).labels() == old(self).labels(),
    {
        self.push(byte(imm32) as u8);
        self.push(byte(imm32 / 0x100) as u8);
        self.push(byte(imm32 / 0x1_0000) as u8);
        self.push((imm32 / 0x100_0000) as u8);
        assert(self@ =~= old(self)@ + le32(imm32));
    }

    fn emit_imm64(&mut self, imm64: u64)
        ensures
            final(self)@ == old(self)@ + le64(imm64),
            final(self).labels() == old(self).labels(),
    {
        self.emit_imm32((imm64 % 0x1_0000_0000) as u32);
        self.emit_imm32((imm64 / 0x1_0000_0000) as u32);
        assert(self@ =~= old(self)@ + le64(imm64));
    }

    /// A displacement (see `disp`).
    fn emit_disp(&mut self, offset: i32)
        ensures
            final(self)@ == old(self)@ + disp(offset),
            final(self).labels() == old(self).labels(),
    {
        if -128 <= offset && offset <= 127 {
            self.push(offset as u8);
        } else {
            self.emit_imm32(offset as u32);
        }
        assert(self@ =~= old(self)@ + disp(offset));
    }

    /// Finishes the code: restores R12 to R15, returns, and fills in each label's
    /// placeholders with the distance to the label's definition. The code can then be
    /// mapped executable.
    pub fn assemble(&mut self)
        requires
            old(self).wf(),
            old(self)@.len() < 0x4000_0000,
            forall|l: Label| old(self).label_use(l) is Some ==> old(self).label_definition(l) is Some,
            forall|l: Label| old(self).label_wide_use(l) is Some ==> old(self).label_definition(l) is Some,
        ensures
            final(self)@ == patch_all_wide(
                patch_all(old(self)@ + load_reserved_spec() + seq![0xc3u8], old(self).labels().1, old(self).labels().2),
                old(self).labels().3,
                old(self).labels().2,
            ),
            final(self).labels() == old(self).labels(),
    {
        let code_len = self.len();
        self.load_reserved_registers();
        self.emit_ret();
        let ghost start = self@;
        let ghost uses = self.labels_used@;
        let ghost defs = self.labels_defined@;
        assert(start =~= old(self)@ + load_reserved_spec() + seq![0xc3u8]);
        assert forall|l: Label| lookup(uses, l) is Some implies lookup(defs, l) is Some by {
            assert(old(self).label_use(l) == lookup(uses, l));
            assert(old(self).label_definition(l) == lookup(defs, l));
        }
        let mut i: usize = 0;
        while i < self.labels_used.len()
            invariant
                uses == self.labels_used@,
                defs == self.labels_defined@,
                self.labels() == old(self).labels(),
                keys_unique(uses),
                keys_unique(defs),
                i <= uses.len(),
                start.len() == old(self)@.len() + 9,
                old(self)@.len() < 0x4000_0000,
                forall|k: int| 0 <= k < uses.len() ==> #[trigger] uses[k].1 < old(self)@.len(),
                forall|k: int| 0 <= k < defs.len() ==> #[trigger] defs[k].1 <= old(self)@.len(),
                forall|l: Label| lookup(uses, l) is Some ==> lookup(defs, l) is Some,
                self@ == patch_all(start, uses.take(i as int), defs),
                self@.len() == start.len(),
            decreases uses.len() - i,
        {
            let label = self.labels_used[i].0;
            let loc = self.labels_used[i].1;
            proof {
                assert(uses[i as int].0 == label);
                assert(lookup(uses, label) is Some);
            }
            let def = match find_label(&self.labels_defined, label) {
                Some(d) => d,
                None => 0,
            };
            proof {
                let j = choose|j: int| 0 <= j < defs.len() && defs[j].0 == label;
                assert(defs[j].1 == def);
            }
            let rel: i64 = (def as i64) - (loc as i64) - 1;
            let v: u32 = if rel >= 0 {
                rel as u32
            } else {
                (rel + 0x1_0000_0000) as u32
            };
            let ghost before = self@;
            self.buffer.set(loc, (v % 0x100) as u8);
            if rel < -0x80 || rel > 0x7f {
                self.buffer.set(loc + 1, (v / 0x100 % 0x100) as u8);
                if rel < -0x8000 || rel > 0x7fff {
                    self.buffer.set(loc + 2, (v / 0x1_0000 % 0x100) as u8);
                    self.buffer.set(loc + 3, (v / 0x100_0000) as u8);
                }
            }
            proof {
                assert(uses.take(i + 1).drop_last() =~= uses.take(i as int));
                assert(v == crate::register::wrap32(rel as int));
                assert(self@ =~= patch(before, loc as int, def as int));
            }
            i = i + 1;
        }
        assert(uses.take(i as int) =~= uses);
        assert forall|l: Label| lookup(self.labels().3, l) is Some implies lookup(self.labels().2, l) is Some by {
            assert(old(self).label_wide_use(l) == lookup(self.labels().3, l));
            assert(old(self).label_definition(l) == lookup(self.labels().2, l));
        }
        self.patch_wide_labels(code_len);
    }

    /// Fills in each four-byte placeholder with the distance from its end to the
    /// label's definition.
    fn patch_wide_labels(&mut self, code_len: usize)
        requires
            code_len < 0x4000_0000,
            old(self)@.len() == code_len + 9,
            keys_unique(old(self).labels().3),
            keys_unique(old(self).labels().2),
            forall|k: int| 0 <= k < old(self).labels().3.len() ==> #[trigger] old(self).labels().3[k].1 + 3 < code_len,
            forall|k: int| 0 <= k < old(self).labels().2.len() ==> #[trigger] old(self).labels().2[k].1 <= code_len,
            forall|l: Label| lookup(old(self).labels().3, l) is Some ==> lookup(old(self).labels().2, l) is Some,
        ensures
            final(self)@ == patch_all_wide(old(self)@, old(self).labels().3, old(self).labels().2),
            final(self).labels() == old(self).labels(),
    {
        let ghost start = self@;
        let ghost uses = self.wide_labels_used@;
        let ghost defs = self.labels_defined@;
        let mut i: usize = 0;
        while i < self.wide_labels_used.len()
            invariant
                uses == self.wide_labels_used@,
                defs == self.labels_defined@,
                self.labels() == old(self).labels(),
                uses == old(self).labels().3,
                defs == old(self).labels().2,
                keys_unique(uses),
                keys_unique(defs),
                i <= uses.len(),
                start == old(self)@,
                start.len() == code_len + 9,
                code_len < 0x4000_0000,
                forall|k: int| 0 <= k < uses.len() ==> #[trigger] uses[k].1 + 3 < code_len,
                forall|k: int| 0 <= k < defs.len() ==> #[trigger] defs[k].1 <= code_len,
                forall|l: Label| lookup(uses, l) is Some ==> lookup(defs, l) is Some,
                self@ == patch_all_wide(start, uses.take(i as int), defs),
                self@.len() == start.len(),
            decreases uses.len() - i,
        {
            let label = self.wide_labels_used[i].0;
            let loc = self.wide_labels_used[i].1;
            proof {
                assert(uses[i as int].0 == label);
                assert(lookup(uses, label) is Some);
            }
            let def = match find_label(&self.labels_defined, label) {
                Some(d) => d,
                None => 0,
            };
            proof {
                let j = choose|j: int| 0 <= j < defs.len() && defs[j].0 == label;
                assert(defs[j].1 == def);
            }
            let rel: i64 = (def as i64) - (loc as i64) - 4;
            let v: u32 = if rel >= 0 {
                rel as u32
            } else {
                (rel + 0x1_0000_0000) as u32
            };
            let ghost before = self@;
            self.buffer.set(loc, (v % 0x100) as u8);
            self.buffer.set(loc + 1, (v / 0x100 % 0x100) as u8);
            self.buffer.set(loc + 2, (v / 0x1_0000 % 0x100) as u8);
            self.buffer.set(loc + 3, (v / 0x100_0000) as u8);
            proof {
                assert(uses.take(i + 1).drop_last() =~= uses.take(i as int));
                assert(v == crate::register::wrap32(rel as int));
                assert(self@ =~= patch_wide(before, loc as int, def as int));
            }
            i = i + 1;
        }
        assert(uses.take(i as int) =~= uses);
    }

    /// The registers from 0 to 15 but RSP, in order.
    pub fn free_regs() -> (r: Vec<u32>)
        ensures
            r@ == free_regs_spec(),
    {
        let mut out: Vec<u32> = Vec::new();
        let mut x: u32 = 0;
        while x <= 15
            invariant
                x <= 16,
                out@ == free_regs_spec().take(free_below(x)),
            decreases 16 - x,
        {
            if x != X64_RSP {
                out.push(x);
            }
            x = x + 1;
            assert(out@ =~= free_regs_spec().take(free_below(x)));
        }
        assert(free_regs_spec().take(15) =~= free_regs_spec());
        out
    }

    /// The registers from 0 to 15 that a callee may overwrite, in order.
    pub fn caller_saved_regs() -> (r: Vec<u32>)
        ensures
            r@ == caller_saved_regs_spec(),
    {
        let mut out: Vec<u32> = Vec::new();
        let mut x: u32 = 0;
        while x <= 15
            invariant
                x <= 16,
                out@ == caller_saved_regs_spec().take(caller_saved_below(x)),
            decreases 16 - x,
        {
            if x != X64_RSP && x != X64_RBX && x != X64_RBP && x != X64_R12 && x != X64_R13 && x
                != X64_R14 && x != X64_R15 {
                out.push(x);
            }
            x = x + 1;
            assert(out@ =~= caller_saved_regs_spec().take(caller_saved_below(x)));
        }
        assert(caller_saved_regs_spec().take(9) =~= caller_saved_regs_spec());
        out
    }
}

} // verus!
