//! What the console does with the side effects of memory accesses (writes that reach
//! devices, reads that come from them), and the loading of PS-X executables.
//! RAM itself lives with the caller.
use vstd::prelude::*;
use crate::common::{ReadArray, le_word};
use crate::register::{wrap32, lemma_shr_is_div};
use super::{Console, MaybeSet, physical_address};
use super::dma::Transfer;
use super::handle_dma::{DmaPlan, planned, supported};
use super::gpu::gp0::{gp0_written, gp0_accepts};
use super::gpu::gp1::{gp1_written, known_gp1};
use super::gpu::reported_gpustat;

verus! {

/// What a memory write sets off besides storing the value.
#[derive(Debug)]
pub enum MemAction {
    DMA(Transfer),
    GpuGp0(u32),
    GpuGp1(u32),
    CDCmd(u8),
    CDParam(u8),
    CDCmdParam(u8, u8),
    Interrupt(u32),
    NoAction,
}

/// Where the value of a memory read comes from.
#[derive(Debug, Clone, Copy, PartialEq, Eq, Structural)]
pub enum MemResponse {
    Value(u32),
    GPUREAD,
    GPUSTAT,
    CDResponse,
}

/// The actions that the console can carry out.
pub open spec fn action_accepted(console: Console, action: MemAction) -> bool {
    match action {
        MemAction::DMA(t) => supported(t),
        MemAction::GpuGp0(v) => gp0_accepts(console.gpu, v),
        MemAction::GpuGp1(v) => known_gp1(v / 0x100_0000),
        _ => true,
    }
}

/// The word at byte offset `offset` of an executable, little-endian.
pub open spec fn exe_word(bytes: Seq<u8>, offset: int) -> u32 {
    le_word(bytes, offset)
}

/// The stack and frame pointer of an executable: its stack base plus its stack size.
pub open spec fn exe_stack(bytes: Seq<u8>) -> int {
    exe_word(bytes, 0x30) + exe_word(bytes, 0x34)
}

/// The payload words of an executable (everything after its 2KB header) and where
/// each goes in memory: word `i` to the load address plus `4 * i`.
pub open spec fn exe_payload(bytes: Seq<u8>) -> Seq<(u32, u32)> {
    Seq::new(
        ((bytes.len() - 0x800) / 4) as nat,
        |i: int| ((exe_word(bytes, 0x18) + 4 * i) as u32, exe_word(bytes, 0x800 + 4 * i)),
    )
}

/// Where an executable's payload goes: one entry per payload word, the first at the
/// load address in the header (offset 0x18), each next one four bytes further on, and
/// each carrying the little-endian word at its place in the file after the 2KB header.
pub proof fn lemma_payload_is_laid_out_word_by_word(bytes: Seq<u8>)
    requires
        loadable(bytes),
    ensures
        ({
            let r = exe_payload(bytes);
            &&& 0x800 + 4 * r.len() == bytes.len()
            &&& r.len() > 0 ==> r[0].0 == bytes[0x18] as int + bytes[0x19] as int * 0x100
                + bytes[0x1a] as int * 0x1_0000 + bytes[0x1b] as int * 0x100_0000
            &&& forall|i: int| 0 <= i < r.len() - 1 ==> #[trigger] r[i + 1].0 == r[i].0 + 4
            &&& forall|i: int|
                0 <= i < r.len() ==> #[trigger] r[i].1 == bytes[0x800 + 4 * i] as int + bytes[0x801
                    + 4 * i] as int * 0x100 + bytes[0x802 + 4 * i] as int * 0x1_0000 + bytes[0x803
                    + 4 * i] as int * 0x100_0000
        }),
{
    let r = exe_payload(bytes);
    assert forall|i: int| 0 <= i < r.len() implies #[trigger] r[i].1 == bytes[0x800 + 4 * i] as int
        + bytes[0x801 + 4 * i] as int * 0x100 + bytes[0x802 + 4 * i] as int * 0x1_0000 + bytes[0x803
        + 4 * i] as int * 0x100_0000 by {
        let w = bytes[0x800 + 4 * i] as nat + bytes[0x801 + 4 * i] as nat * 0x100 + bytes[0x802 + 4 * i] as nat
            * 0x1_0000 + bytes[0x803 + 4 * i] as nat * 0x100_0000;
        assert(w < 0x1_0000_0000);
    }
}

/// The executables that load: a header and whole words, a stack that fits below 4GB,
/// and a payload that fits above the load address.
pub open spec fn loadable(bytes: Seq<u8>) -> bool {
    &&& bytes.len() >= 0x800
    &&& bytes.len() % 4 == 0
    &&& bytes.len() < 0x4000_0000
    &&& exe_stack(bytes) <= 0xffff_ffff
    &&& exe_word(bytes, 0x18) + 4 * ((bytes.len() - 0x800) / 4) <= 0xffff_ffff
}

impl Console {
    /// Notes that the word at `address` was written, so that code compiled from it
    /// can be dropped.
    pub fn record_write(&mut self, address: u32)
        ensures
            final(self).overwritten@ == old(self).overwritten@.insert(physical_address(address)),
            final(self).r3000 == old(self).r3000,
            final(self).cop0 == old(self).cop0,
            final(self).gpu == old(self).gpu,
            final(self).gte == old(self).gte,
            final(self).cd == old(self).cd,
            final(self).next_pc == old(self).next_pc,
            final(self).delayed_writes@ == old(self).delayed_writes@,
            final(self).modified_register == old(self).modified_register,
            final(self).i == old(self).i,
    {
        broadcast use vstd::std_specs::hash::group_hash_axioms;
        let p = Console::physical(address);
        self.overwritten.insert(p);
    }

    /// Carries out what a memory write sets off: a DMA transfer (whose RAM side is
    /// returned for the caller to perform), a GP0 or GP1 word, a CD command or
    /// parameter, or an interrupt request.
    pub fn handle_action(&mut self, action: MemAction) -> (r: Option<DmaPlan>)
        requires
            action_accepted(*old(self), action),
        ensures
            final(self).r3000 == old(self).r3000,
            final(self).gte == old(self).gte,
            final(self).next_pc == old(self).next_pc,
            final(self).delayed_writes@ == old(self).delayed_writes@,
            final(self).modified_register == old(self).modified_register,
            final(self).overwritten@ == old(self).overwritten@,
            final(self).i == old(self).i,
            match action {
                MemAction::DMA(t) => r matches Some(plan) && planned(t, plan),
                _ => r is None,
            },
            match action {
                MemAction::GpuGp0(v) => final(self).gpu.wf() && gp0_written(old(self).gpu, final(self).gpu, v),
                MemAction::GpuGp1(v) => gp1_written(old(self).gpu, final(self).gpu, v),
                _ => final(self).gpu == old(self).gpu,
            },
            match action {
                MemAction::CDCmd(c) => final(self).cd.commands() == old(self).cd.commands().push(c)
                    && final(self).cd.parameters() == old(self).cd.parameters(),
                MemAction::CDParam(p) => final(self).cd.commands() == old(self).cd.commands()
                    && final(self).cd.parameters() == old(self).cd.parameters().push(p),
                MemAction::CDCmdParam(c, p) => final(self).cd.commands() == old(self).cd.commands().push(c)
                    && final(self).cd.parameters() == old(self).cd.parameters().push(p),
                _ => final(self).cd.commands() == old(self).cd.commands() && final(self).cd.parameters()
                    == old(self).cd.parameters(),
            },
            final(self).cd.responses() == old(self).cd.responses(),
            final(self).cd.disc() == old(self).cd.disc(),
            match action {
                MemAction::Interrupt(_) => final(self).cop0.cause() == old(self).cop0.cause() | 0x400
                    && final(self).cop0.sr() == old(self).cop0.sr() && final(self).cop0.epc() == old(
                    self,
                ).cop0.epc(),
                _ => final(self).cop0 == old(self).cop0,
            },
    {
        match action {
            MemAction::DMA(transfer) => Some(Console::plan_dma(&transfer)),
            MemAction::GpuGp0(value) => {
                self.gpu.write_to_gp0(value);
                None
            },
            MemAction::GpuGp1(value) => {
                self.gpu.write_to_gp1(value);
                None
            },
            MemAction::CDCmd(value) => {
                self.cd.send_command(value);
                None
            },
            MemAction::CDParam(value) => {
                self.cd.send_parameter(value);
                None
            },
            MemAction::CDCmdParam(cmd, param) => {
                self.cd.send_command(cmd);
                self.cd.send_parameter(param);
                None
            },
            MemAction::Interrupt(irq) => {
                self.cop0.request_interrupt(irq);
                None
            },
            MemAction::NoAction => None,
        }
    }

    /// The value of a memory read: the word itself, or what GPUREAD, GPUSTAT or the CD
    /// response queue give.
    pub fn handle_response(&mut self, response: MemResponse) -> (r: u32)
        ensures
            match response {
                MemResponse::Value(v) => r == v,
                MemResponse::GPUSTAT => r == reported_gpustat(old(self).gpu.gpustat.0),
                MemResponse::GPUREAD => if old(self).gpu.gpuread@.len() == 0 {
                    r == 0
                } else {
                    r == old(self).gpu.gpuread@[0]
                },
                MemResponse::CDResponse => if old(self).cd.responses().len() == 0 {
                    r == 0
                } else {
                    r == old(self).cd.responses()[0]
                },
            },
            response == MemResponse::GPUREAD ==> final(self).gpu.gpuread@ == (if old(self).gpu.gpuread@.len() == 0 {
                old(self).gpu.gpuread@
            } else {
                old(self).gpu.gpuread@.drop_first()
            }),
            response != MemResponse::GPUREAD ==> final(self).gpu == old(self).gpu,
            response == MemResponse::CDResponse ==> final(self).cd.responses() == (if old(self).cd.responses().len() == 0 {
                old(self).cd.responses()
            } else {
                old(self).cd.responses().drop_first()
            }),
            response != MemResponse::CDResponse ==> final(self).cd == old(self).cd,
            final(self).r3000 == old(self).r3000,
            final(self).cop0 == old(self).cop0,
            final(self).gte == old(self).gte,
    {
        match response {
            MemResponse::Value(value) => value,
            MemResponse::GPUREAD => self.gpu.gpuread(),
            MemResponse::GPUSTAT => self.gpu.gpustat(),
            MemResponse::CDResponse => self.cd.read_response(),
        }
    }

    /// Starts a PS-X executable: the program counter, the global pointer (R28) and the
    /// stack and frame pointers (R29, R30) come from its header. Returns where its
    /// payload goes in memory, word by word, for the caller to store.
    pub fn load_psexe(&mut self, bytes: &Vec<u8>) -> (r: Vec<(u32, u32)>)
        requires
            loadable(bytes@),
            old(self).r3000@.len() == 35,
        ensures
            final(self).r3000@ == old(self).r3000@.update(32, exe_word(bytes@, 0x10)).update(
                28,
                exe_word(bytes@, 0x14),
            ).update(29, exe_stack(bytes@) as u32).update(30, exe_stack(bytes@) as u32),
            r@ == exe_payload(bytes@),
            r@.len() > 0 ==> r@[0].0 == exe_word(bytes@, 0x18),
            forall|i: int| 0 <= i < r@.len() - 1 ==> #[trigger] r@[i + 1].0 == r@[i].0 + 4,
            final(self).cop0 == old(self).cop0,
            final(self).gpu == old(self).gpu,
            final(self).cd == old(self).cd,
            final(self).modified_register == old(self).modified_register,
    {
        let data: &[u8] = bytes.as_slice();
        let pc = data.read_word(0x10);
        let gp = data.read_word(0x14);
        let stack = data.read_word(0x30) + data.read_word(0x34);
        let dest_addr = data.read_word(0x18);
        *self.r3000.pc_mut() = pc;
        let _ = self.r3000.nth_reg_mut(28).maybe_set(gp);
        let _ = self.r3000.nth_reg_mut(29).maybe_set(stack);
        let _ = self.r3000.nth_reg_mut(30).maybe_set(stack);
        let n = (bytes.len() - 0x800) / 4;
        let mut writes: Vec<(u32, u32)> = Vec::new();
        let mut i: usize = 0;
        while i < n
            invariant
                data@ == bytes@,
                loadable(bytes@),
                n == (bytes@.len() - 0x800) / 4,
                dest_addr == exe_word(bytes@, 0x18),
                i <= n,
                writes@ == exe_payload(bytes@).subrange(0, i as int),
            decreases n - i,
        {
            let word = data.read_word((0x800 + 4 * i) as u32);
            writes.push((dest_addr + 4 * (i as u32), word));
            i = i + 1;
            assert(writes@ =~= exe_payload(bytes@).subrange(0, i as int));
        }
        assert(writes@ =~= exe_payload(bytes@));
        proof {
            lemma_payload_is_laid_out_word_by_word(bytes@);
        }
        writes
    }
}

} // verus!
