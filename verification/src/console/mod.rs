//! The state of the console's components and the helpers that tie them together.
use vstd::prelude::*;
use std::collections::HashSet;
use std::collections::VecDeque;
use crate::register::upper_bits;
use cd::CD;
use cop0::Cop0;
use cop0::Cop0Exception;
use gpu::GPU;
use gte::GTE;
use r3000::R3000;

pub mod bus;
pub mod cd;
pub mod cop0;
pub mod dma;
pub mod gpu;
pub mod gte;
pub mod handle_dma;
pub mod r3000;

verus! {

/// Sets a register if there is one to set, and names the register that was set when
/// that register takes part in delayed-load ordering.
pub trait MaybeSet {
    fn maybe_set(self, value: u32) -> Option<Name>;
}

/// The registers that a delayed write can target.
#[derive(Debug, PartialEq, Eq, Structural)]
pub enum Name {
    Rn(u32),
    Hi,
    Lo,
}

impl Name {
    /// A general purpose register name must be below 32.
    pub open spec fn valid(&self) -> bool {
        match self {
            Name::Rn(idx) => *idx < 32,
            _ => true,
        }
    }
}

/// A register write that takes effect one instruction later (a delayed load).
#[derive(Debug)]
pub struct DelayedWrite {
    pub register_name: Name,
    pub value: u32,
}

impl DelayedWrite {
    pub fn new(register_name: Name, value: u32) -> (r: Self)
        ensures
            r.register_name == register_name,
            r.value == value,
    {
        DelayedWrite { register_name, value }
    }

    pub fn name(&self) -> (r: &Name)
        ensures
            *r == self.register_name,
    {
        &self.register_name
    }

    pub fn value(&self) -> (r: u32)
        ensures
            r == self.value,
    {
        self.value
    }
}

/// The mask that turns an address of the given 512MB segment (the top three address
/// bits) into a physical address: KSEG0 drops the top bit, KSEG1 the top three bits,
/// KUSEG and KSEG2 stay as they are.
pub open spec fn phys_mask(segment: u32) -> u32 {
    if segment == 4 {
        0x7fff_ffff
    } else if segment == 5 {
        0x1fff_ffff
    } else {
        0xffff_ffff
    }
}

/// The physical address that a CPU address maps to.
pub open spec fn physical_address(address: u32) -> u32 {
    address & phys_mask(address / 0x2000_0000)
}

/// The console's components: the CPU registers, its coprocessors, the GPU and the CD
/// drive, with the bookkeeping for delayed loads and self-modifying code.
pub struct Console {
    pub r3000: R3000,
    pub cop0: Cop0,
    pub gpu: GPU,
    pub gte: GTE,
    pub cd: CD,
    pub next_pc: Option<u32>,
    pub delayed_writes: VecDeque<DelayedWrite>,
    pub modified_register: Option<Name>,
    pub overwritten: HashSet<u32>,
    pub i: u32,
}

impl Console {
    pub const REFRESH_RATE: i64 = 550_000;

    /// A console right after reset, with an empty CD drive unless `cd_contents` holds
    /// a disc image.
    pub fn new(gpu_logging: bool, cd_contents: Option<Vec<u8>>) -> (r: Self)
        ensures
            r.r3000@ == R3000::new_view(),
            r.cop0.sr() == 0 && r.cop0.cause() == 0 && r.cop0.epc() == 0,
            r.gpu.logging() == gpu_logging,
            r.next_pc is None,
            r.delayed_writes@.len() == 0,
            r.modified_register is None,
            r.overwritten@.is_empty(),
            r.i == 0,
            r.gte.data() == Seq::new(32, |i: int| 0u32),
            r.gte.ctrl() == Seq::new(32, |i: int| 0u32),
            r.cd.disc() == (match cd_contents {
                Some(v) => Some(v@),
                None => None,
            }),
            r.cd.commands().len() == 0,
            r.cd.parameters().len() == 0,
            r.cd.responses().len() == 0,
    {
        Console {
            r3000: R3000::new(),
            cop0: Cop0::new(),
            gpu: GPU::new(gpu_logging),
            gte: GTE::new(),
            cd: CD::new(cd_contents),
            next_pc: None,
            delayed_writes: VecDeque::new(),
            modified_register: None,
            overwritten: HashSet::new(),
            i: 0,
        }
    }

    /// The refresh countdown after `steps` more instructions: once it falls below
    /// zero the window is redrawn (`true`) and the countdown starts again.
    pub fn tick_refresh(timer: i64, steps: u32) -> (r: (i64, bool))
        requires
            0 <= timer <= Console::REFRESH_RATE,
        ensures
            r.1 == (timer - steps < 0),
            r.0 == (if r.1 { Console::REFRESH_RATE as int } else { timer - steps }),
            0 <= r.0 <= Console::REFRESH_RATE,
    {
        let t = timer - steps as i64;
        if t < 0 {
            (Console::REFRESH_RATE, true)
        } else {
            (t, false)
        }
    }

    /// The physical address that `address` maps to.
    pub fn physical(address: u32) -> (r: u32)
        ensures
            r == physical_address(address),
    {
        let idx = upper_bits(address, 3);
        proof {
            vstd::arithmetic::power2::lemma2_to64();
        }
        let mask: u32 = if idx == 4 {
            0x7fff_ffff
        } else if idx == 5 {
            0x1fff_ffff
        } else {
            0xffff_ffff
        };
        address & mask
    }

    /// Raises an exception in COP0 and returns the address of the handler.
    pub fn generate_exception(&mut self, kind: Cop0Exception, current_pc: u32) -> (r: u32)
        ensures
            r == old(self).cop0.exception_vector_spec(),
            final(self).cop0.epc() == current_pc,
            final(self).cop0.cause() == Cop0::cause_after(old(self).cop0.cause(), kind),
            final(self).cop0.sr() == Cop0::sr_after_exception(old(self).cop0.sr()),
            final(self).r3000 == old(self).r3000,
            final(self).gpu == old(self).gpu,
            final(self).gte == old(self).gte,
            final(self).cd == old(self).cd,
            final(self).next_pc == old(self).next_pc,
            final(self).delayed_writes@ == old(self).delayed_writes@,
            final(self).modified_register == old(self).modified_register,
            final(self).overwritten@ == old(self).overwritten@,
            final(self).i == old(self).i,
    {
        self.cop0.generate_exception(kind, current_pc)
    }
}

/// Mapping an address to a physical one twice gives what mapping it once gave.
pub proof fn lemma_physical_idempotent(address: u32)
    ensures
        physical_address(physical_address(address)) == physical_address(address),
{
    assert(physical_address(physical_address(address)) == physical_address(address))
        by (bit_vector);
}

/// The cached (KSEG0) and uncached (KSEG1) windows both mirror the first 512MB of the
/// physical address space.
pub proof fn lemma_kseg_mirrors(address: u32)
    requires
        address < 0x2000_0000,
    ensures
        physical_address((address + 0x8000_0000) as u32) == address,
        physical_address((address + 0xa000_0000) as u32) == address,
        physical_address(address) == address,
{
    let a0 = (address + 0x8000_0000) as u32;
    let a1 = (address + 0xa000_0000) as u32;
    assert(a0 / 0x2000_0000 == 4 && a0 & 0x7fff_ffff == address) by (bit_vector)
        requires a0 == address + 0x8000_0000, address < 0x2000_0000;
    assert(a1 / 0x2000_0000 == 5 && a1 & 0x1fff_ffff == address) by (bit_vector)
        requires a1 == address + 0xa000_0000, address < 0x2000_0000;
    assert(address / 0x2000_0000 == 0 && address & 0xffff_ffff == address) by (bit_vector)
        requires address < 0x2000_0000;
}

} // verus!
