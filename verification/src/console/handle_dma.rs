//! The address arithmetic of DMA transfers: which RAM words a transfer reads or
//! writes, in which order, and what it leaves in the channel's address register.
//! RAM itself lives with the caller, which carries out the plan.
use vstd::prelude::*;
use crate::register::{lowest_bits, wrap32};
use super::Console;
use super::dma::{Chunks, Direction, Step, Transfer};

verus! {

/// DMA addresses are word aligned and 24 bits wide.
pub const ADDR_MASK: u32 = 0x00ff_fffc;

/// The address after `address` in the direction of the transfer.
pub open spec fn next_address(step: Step, address: u32) -> u32 {
    match step {
        Step::Forward => wrap32(address + 4) & ADDR_MASK,
        Step::Backward => wrap32(address - 4) & ADDR_MASK,
    }
}

/// The address before `address` in the direction of the transfer.
pub open spec fn previous_address(step: Step, address: u32) -> u32 {
    match step {
        Step::Forward => wrap32(address - 4) & ADDR_MASK,
        Step::Backward => wrap32(address + 4) & ADDR_MASK,
    }
}

/// The address reached from `address` after `n` steps.
pub open spec fn stepped(step: Step, address: u32, n: nat) -> u32
    decreases n,
{
    if n == 0 {
        address
    } else {
        next_address(step, stepped(step, address, (n - 1) as nat))
    }
}

/// The `n` addresses that a transfer of `n` words starting at `address` touches.
pub open spec fn word_addresses(step: Step, address: u32, n: nat) -> Seq<u32> {
    Seq::new(n, |i: int| stepped(step, address, i as nat))
}

/// The ordering table that channel 6 writes: each of the `n` entries links to the
/// word before it, and the last one ends the list.
pub open spec fn ordering_table(step: Step, address: u32, n: nat) -> Seq<(u32, u32)> {
    Seq::new(
        n,
        |i: int|
            {
                let a = stepped(step, address, i as nat);
                (a, if i == n - 1 {
                    0x00ff_ffffu32
                } else {
                    wrap32(a - 4) & ADDR_MASK
                })
            },
    )
}

/// Stepping back undoes a step, for an address that is already word aligned and
/// within 24 bits (the addresses a transfer produces).
pub proof fn lemma_previous_undoes_next(step: Step, address: u32)
    requires
        address & ADDR_MASK == address,
    ensures
        previous_address(step, next_address(step, address)) == address,
        next_address(step, previous_address(step, address)) == address,
{
    let m: int = 0x1_0000_0000;
    let up = wrap32(address + 4) & ADDR_MASK;
    let down = wrap32(address - 4) & ADDR_MASK;
    vstd::arithmetic::div_mod::lemma_mod_add_multiples_vanish(address - 4, m);
    vstd::arithmetic::div_mod::lemma_mod_add_multiples_vanish(up - 4, m);
    assert(wrap32(address - 4) == ((address + 0xffff_fffc) % 0x1_0000_0000) as u32);
    assert(wrap32(up - 4) == ((up + 0xffff_fffc) % 0x1_0000_0000) as u32);
    assert(((((((address + 4) % 0x1_0000_0000) as u32) & 0x00ff_fffc) + 0xffff_fffc) % 0x1_0000_0000) as u32
        & 0x00ff_fffc == address
        && ((((((address + 0xffff_fffc) % 0x1_0000_0000) as u32) & 0x00ff_fffc) + 4) % 0x1_0000_0000) as u32
        & 0x00ff_fffc == address)
        by (bit_vector)
        requires
            address & 0x00ff_fffc == address,
    ;
}

/// What a DMA transfer does to RAM.
#[derive(Debug)]
pub enum DmaPlan {
    /// Write each value at its address, in order.
    WriteRam(Vec<(u32, u32)>),
    /// Read the words at these addresses, in order, and send them to the channel;
    /// then write `final_address`, if there is one, into the channel's address register.
    ReadRam { addresses: Vec<u32>, final_address: Option<u32> },
    /// Send the packets of the linked list whose first header is at this address (see
    /// `linked_list_packet`), then mark the channel's address register as at the end.
    LinkedList { header_address: u32 },
}

/// The transfers that the emulator carries out: to RAM only the ordering table of
/// channel 6, from RAM only to the GPU (2), the CD drive (3) and RAM itself (6), and
/// blocks of at most 0xffff words.
pub open spec fn supported(transfer: Transfer) -> bool {
    match transfer.direction {
        Direction::ToRAM => transfer.channel_num == 6 && transfer.chunks is NumWords,
        Direction::FromRAM => {
            &&& (transfer.channel_num == 2 || transfer.channel_num == 3 || transfer.channel_num == 6)
            &&& transfer.chunks matches Chunks::Blocks(b) ==> b.num_blocks * b.block_size <= 0xffff
        },
    }
}

/// `plan` is what transfer `transfer` does to RAM: the ordering table that channel 6
/// writes; the words that a transfer from RAM reads, with the address a block
/// transfer leaves behind; or where a linked list starts.
pub open spec fn planned(transfer: Transfer, r: DmaPlan) -> bool {
    let start = transfer.start_address & ADDR_MASK;
    let step = transfer.step;
    match transfer.direction {
        Direction::ToRAM => match transfer.chunks {
            Chunks::NumWords(n) => r matches DmaPlan::WriteRam(w) && w@ == ordering_table(step, start, n as nat),
            _ => false,
        },
        Direction::FromRAM => match transfer.chunks {
            Chunks::NumWords(n) => r matches DmaPlan::ReadRam { addresses, final_address }
                && addresses@ == word_addresses(step, start, n as nat) && final_address is None,
            Chunks::Blocks(b) => {
                let n = (b.num_blocks * b.block_size) as nat;
                r matches DmaPlan::ReadRam { addresses, final_address } && addresses@ == word_addresses(
                    step,
                    start,
                    n,
                ) && final_address == Some(previous_address(step, stepped(step, start, n)))
            },
            Chunks::LinkedList => r == DmaPlan::LinkedList { header_address: start },
        },
    }
}

/// Whether the emulator carries out `transfer` (see `supported`).
pub fn is_supported(transfer: &Transfer) -> (r: bool)
    ensures
        r == supported(*transfer),
{
    match transfer.direction() {
        Direction::ToRAM => transfer.channel_num() == 6 && match transfer.chunks() {
            Chunks::NumWords(_) => true,
            _ => false,
        },
        Direction::FromRAM => {
            let channel = transfer.channel_num();
            (channel == 2 || channel == 3 || channel == 6) && match transfer.chunks() {
                Chunks::Blocks(b) => {
                    let n = b.num_blocks() as u32;
                    let size = b.block_size() as u32;
                    assert(n * size <= 0xffff * 0xffff) by (nonlinear_arith)
                        requires
                            n <= 0xffff,
                            size <= 0xffff,
                    ;
                    n * size <= 0xffff
                },
                _ => true,
            }
        },
    }
}

/// The address one step on.
pub fn step_address(step: &Step, address: u32) -> (r: u32)
    ensures
        r == next_address(*step, address),
{
    match step {
        Step::Forward => address.wrapping_add(4) & ADDR_MASK,
        Step::Backward => address.wrapping_sub(4) & ADDR_MASK,
    }
}

/// The address one step back.
pub fn undo_step_address(step: &Step, address: u32) -> (r: u32)
    ensures
        r == previous_address(*step, address),
{
    match step {
        Step::Forward => address.wrapping_sub(4) & ADDR_MASK,
        Step::Backward => address.wrapping_add(4) & ADDR_MASK,
    }
}

/// The addresses of `n` consecutive words from `address` on, and the address after
/// the last of them.
fn collect_addresses(step: &Step, address: u32, n: u32) -> (r: (Vec<u32>, u32))
    ensures
        r.0@ == word_addresses(*step, address, n as nat),
        r.1 == stepped(*step, address, n as nat),
{
    let mut out: Vec<u32> = Vec::new();
    let mut addr = address;
    let mut i: u32 = 0;
    while i < n
        invariant
            i <= n,
            out@ == word_addresses(*step, address, i as nat),
            addr == stepped(*step, address, i as nat),
        decreases n - i,
    {
        out.push(addr);
        addr = step_address(step, addr);
        i = i + 1;
        assert(out@ =~= word_addresses(*step, address, i as nat));
    }
    (out, addr)
}

/// One packet of a linked-list transfer: the addresses of the words that follow the
/// header at `header_address` (one more than the header's top byte says), and the
/// address of the next header, none when the header ends the list.
pub open spec fn linked_list_packet_spec(step: Step, header_address: u32, header: u32) -> (
    Seq<u32>,
    Option<u32>,
) {
    let size = header / 0x100_0000;
    let next = header % 0x100_0000;
    (
        Seq::new((size + 1) as nat, |i: int| stepped(step, header_address, (i + 1) as nat)),
        if next == 0x00ff_ffff {
            None
        } else {
            Some(next & ADDR_MASK)
        },
    )
}

/// Reads one packet of a linked-list transfer (see `linked_list_packet_spec`).
pub fn linked_list_packet(step: &Step, header_address: u32, header: u32) -> (r: (
    Vec<u32>,
    Option<u32>,
))
    ensures
        r.0@ == linked_list_packet_spec(*step, header_address, header).0,
        r.1 == linked_list_packet_spec(*step, header_address, header).1,
{
    let packet_size = header >> 24;
    proof {
        crate::register::lemma_shr_is_div(header);
    }
    let mut out: Vec<u32> = Vec::new();
    let mut addr = header_address;
    let mut i: u32 = 0;
    while i <= packet_size
        invariant
            packet_size == header / 0x100_0000,
            i <= packet_size + 1,
            addr == stepped(*step, header_address, i as nat),
            out@ == Seq::new(i as nat, |k: int| stepped(*step, header_address, (k + 1) as nat)),
        decreases packet_size + 1 - i,
    {
        addr = step_address(step, addr);
        out.push(addr);
        i = i + 1;
        assert(out@ =~= Seq::new(i as nat, |k: int| stepped(*step, header_address, (k + 1) as nat)));
    }
    let next_packet = lowest_bits(header, 24);
    proof {
        vstd::arithmetic::power2::lemma2_to64();
    }
    let next = if next_packet == 0x00ff_ffff {
        None
    } else {
        Some(next_packet & ADDR_MASK)
    };
    assert(out@ =~= linked_list_packet_spec(*step, header_address, header).0);
    (out, next)
}

impl Console {
    /// The RAM side of DMA transfer `transfer`: the ordering table that channel 6
    /// writes; the words that a transfer from RAM reads, with the address a block
    /// transfer leaves behind; or where a linked list starts.
    pub fn plan_dma(transfer: &Transfer) -> (r: DmaPlan)
        requires
            supported(*transfer),
        ensures
            planned(*transfer, r),
    {
        let start = transfer.start_address() & ADDR_MASK;
        let step = transfer.step();
        match transfer.direction() {
            Direction::ToRAM => {
                let num = match transfer.chunks() {
                    Chunks::NumWords(num) => *num,
                    _ => 0,
                };
                let mut writes: Vec<(u32, u32)> = Vec::new();
                let mut addr = start;
                let mut i: u32 = 0;
                while i < num
                    invariant
                        i <= num,
                        addr == stepped(*step, start, i as nat),
                        writes@ == ordering_table(*step, start, num as nat).subrange(0, i as int),
                    decreases num - i,
                {
                    let remaining = num - i - 1;
                    let data = if remaining == 0 {
                        0x00ff_ffff
                    } else {
                        addr.wrapping_sub(4) & ADDR_MASK
                    };
                    writes.push((addr, data));
                    addr = step_address(step, addr);
                    i = i + 1;
                    assert(writes@ =~= ordering_table(*step, start, num as nat).subrange(0, i as int));
                }
                assert(writes@ =~= ordering_table(*step, start, num as nat));
                DmaPlan::WriteRam(writes)
            },
            Direction::FromRAM => match transfer.chunks() {
                Chunks::NumWords(num) => {
                    let (addresses, _) = collect_addresses(step, start, *num);
                    DmaPlan::ReadRam { addresses, final_address: None }
                },
                Chunks::Blocks(blocks) => {
                    let packet_size = blocks.num_blocks() * blocks.block_size();
                    let (addresses, after) = collect_addresses(step, start, packet_size as u32);
                    let last = undo_step_address(step, after);
                    DmaPlan::ReadRam { addresses, final_address: Some(last) }
                },
                Chunks::LinkedList => DmaPlan::LinkedList { header_address: start },
            },
        }
    }
}

} // verus!
