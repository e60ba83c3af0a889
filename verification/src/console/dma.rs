//! Descriptions of DMA transfers between main RAM and the devices.
use vstd::prelude::*;

verus! {

/// A device that DMA transfers can send words to or take words from.
pub trait DMAChannel: Sized {
    /// The device takes every word of `data`, one after another.
    spec fn takes(&self, data: Seq<u32>) -> bool;

    /// `after` is the device once it has taken the words of `data`.
    spec fn sent(&self, after: &Self, data: Seq<u32>) -> bool;

    /// The word that the device hands to a transfer into RAM.
    spec fn received(&self) -> u32;

    /// Hands the words of `data` to the device, in order.
    fn send(&mut self, data: Vec<u32>)
        requires
            old(self).takes(data@),
        ensures
            old(self).sent(&*final(self), data@),
    ;

    /// Takes one word from the device.
    fn receive(&self) -> (r: u32)
        ensures
            r == self.received(),
    ;
}

/// How a transfer is split up.
#[derive(Debug)]
pub enum Chunks {
    NumWords(u32),
    Blocks(Blocks),
    LinkedList,
}

/// A transfer of `num_blocks` blocks of `block_size` words each.
#[derive(Debug)]
pub struct Blocks {
    pub block_size: u16,
    pub num_blocks: u16,
}

impl Blocks {
    pub fn new(block_size: u16, num_blocks: u16) -> (r: Self)
        ensures
            r.block_size == block_size,
            r.num_blocks == num_blocks,
    {
        Blocks { block_size, num_blocks }
    }

    pub fn block_size(&self) -> (r: u16)
        ensures
            r == self.block_size,
    {
        self.block_size
    }

    pub fn num_blocks(&self) -> (r: u16)
        ensures
            r == self.num_blocks,
    {
        self.num_blocks
    }
}

#[derive(Debug)]
pub enum Direction {
    ToRAM,
    FromRAM,
}

/// Whether the RAM address goes up or down after each word.
#[derive(Debug)]
pub enum Step {
    Forward,
    Backward,
}

/// One DMA transfer as the DMA registers describe it.
#[derive(Debug)]
pub struct Transfer {
    pub channel_num: u8,
    pub start_address: u32,
    pub chunks: Chunks,
    pub direction: Direction,
    pub step: Step,
    pub sync_mode: u8,
}

impl Transfer {
    pub fn new(
        channel_num: u8,
        start_address: u32,
        chunks: Chunks,
        direction: Direction,
        step: Step,
        sync_mode: u8,
    ) -> (r: Self)
        ensures
            r.channel_num == channel_num,
            r.start_address == start_address,
            r.chunks == chunks,
            r.direction == direction,
            r.step == step,
            r.sync_mode == sync_mode,
    {
        Transfer { channel_num, start_address, chunks, direction, step, sync_mode }
    }

    pub fn step(&self) -> (r: &Step)
        ensures
            *r == self.step,
    {
        &self.step
    }

    pub fn start_address(&self) -> (r: u32)
        ensures
            r == self.start_address,
    {
        self.start_address
    }

    pub fn channel_num(&self) -> (r: u8)
        ensures
            r == self.channel_num,
    {
        self.channel_num
    }

    /// The channel number, widened to a register word.
    pub fn channel(&self) -> (r: u32)
        ensures
            r == self.channel_num,
    {
        self.channel_num as u32
    }

    pub fn direction(&self) -> (r: &Direction)
        ensures
            *r == self.direction,
    {
        &self.direction
    }

    pub fn chunks(&self) -> (r: &Chunks)
        ensures
            *r == self.chunks,
    {
        &self.chunks
    }
}

} // verus!
