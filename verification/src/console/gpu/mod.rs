//! The GPU: its status register, the GP0 command queue and the drawing settings.
use vstd::prelude::*;
use std::collections::VecDeque;
use super::dma::DMAChannel;

pub mod command;
pub mod gp0;
pub mod gp1;

use command::Command;

verus! {

/// One megabyte.
pub const MB: usize = 1024 * 1024;

/// The value GPUSTAT holds at power on.
pub open spec fn initial_gpustat() -> u32 {
    0x1c00_0000
}

/// What a read of GPUSTAT reports: the stored status with the interlace, texture
/// disable and odd-line bits (19, 14, 31) cleared and the three ready bits (26, 27, 28)
/// set, so that software never waits on the GPU.
pub open spec fn reported_gpustat(stat: u32) -> u32 {
    (stat & 0x7ff7_bfff) | 0x1c00_0000
}

/// The GPU status register.
pub struct GPUStatus(pub u32);

impl GPUStatus {
    pub fn new() -> (r: Self)
        ensures
            r.0 == initial_gpustat(),
    {
        GPUStatus(0x1c00_0000)
    }

    pub fn as_mut(&mut self) -> (r: &mut u32)
        ensures
            *r == old(self).0,
            final(self).0 == *final(r),
    {
        &mut self.0
    }

    /// The texture page X base (bits 0 to 3).
    pub fn texture_page_x(&self) -> (r: u32)
        ensures
            r == self.0 % 16,
    {
        proof {
            vstd::arithmetic::power2::lemma2_to64();
        }
        crate::register::lowest_bits(self.0, 4)
    }
}

impl DMAChannel for GPU {
    /// GP0 takes the words: every command they start is a known one.
    open spec fn takes(&self, data: Seq<u32>) -> bool {
        self.wf() && gp0::gp0_takes(gp0::gp0_words(*self), data)
    }

    /// The words went to GP0 one after another; the status and GPUREAD stay.
    open spec fn sent(&self, after: &Self, data: Seq<u32>) -> bool {
        &&& after.wf()
        &&& gp0::gp0_words(*after) == gp0::gp0_feed(gp0::gp0_words(*self), data)
        &&& after.gpustat == self.gpustat
        &&& after.gpuread == self.gpuread
    }

    /// A transfer out of the GPU reads nothing yet.
    open spec fn received(&self) -> u32 {
        0
    }

    fn send(&mut self, data: Vec<u32>) {
        self.write_words_to_gp0(&data);
    }

    fn receive(&self) -> (r: u32) {
        0
    }
}

pub struct GPU {
    pub logging: bool,
    pub gpustat: GPUStatus,
    pub gpuread: VecDeque<u32>,
    pub vram: Vec<u8>,
    pub command_buffer: VecDeque<Command>,
    pub waiting_for_parameters: bool,
    pub partial_command: Option<Command>,
    pub drawing_min_x: u32,
    pub drawing_min_y: u32,
    pub drawing_max_x: u32,
    pub drawing_max_y: u32,
    pub drawing_offset_x: u32,
    pub drawing_offset_y: u32,
    pub texture_mask_x: u32,
    pub texture_mask_y: u32,
    pub texture_offset_x: u32,
    pub texture_offset_y: u32,
    pub display_x: u32,
    pub display_y: u32,
    pub display_range_x1: u32,
    pub display_range_x2: u32,
    pub display_range_y1: u32,
    pub display_range_y2: u32,
}

impl GPU {
    pub open spec fn logging(&self) -> bool {
        self.logging
    }

    /// The partial command is there exactly while the GPU waits for parameters, and
    /// every command stays well formed.
    pub open spec fn wf(&self) -> bool {
        &&& self.waiting_for_parameters <==> self.partial_command is Some
        &&& self.partial_command matches Some(c) ==> c.wf()
        &&& forall|i: int|
            0 <= i < self.command_buffer@.len() ==> (#[trigger] self.command_buffer@[i]).wf()
    }

    pub fn new(logging: bool) -> (r: Self)
        ensures
            r.logging == logging,
            r.gpustat.0 == initial_gpustat(),
            r.gpuread@.len() == 0,
            r.vram@.len() == MB,
            r.command_buffer@.len() == 0,
            !r.waiting_for_parameters,
            r.partial_command is None,
            r.wf(),
            r.drawing_min_x == 0 && r.drawing_min_y == 0 && r.drawing_max_x == 0
                && r.drawing_max_y == 0 && r.drawing_offset_x == 0 && r.drawing_offset_y == 0,
            r.texture_mask_x == 0 && r.texture_mask_y == 0 && r.texture_offset_x == 0
                && r.texture_offset_y == 0,
            r.display_x == 0 && r.display_y == 0 && r.display_range_x1 == 0
                && r.display_range_x2 == 0 && r.display_range_y1 == 0 && r.display_range_y2 == 0,
    {
        let command_buffer = VecDeque::new();
        //512 lines of 2048 bytes
        let vram = vec![0u8; MB];
        GPU {
            logging,
            gpustat: GPUStatus::new(),
            gpuread: VecDeque::new(),
            vram,
            command_buffer,
            waiting_for_parameters: false,
            partial_command: None,
            drawing_min_x: 0,
            drawing_min_y: 0,
            drawing_max_x: 0,
            drawing_max_y: 0,
            drawing_offset_x: 0,
            drawing_offset_y: 0,
            texture_mask_x: 0,
            texture_mask_y: 0,
            texture_offset_x: 0,
            texture_offset_y: 0,
            display_x: 0,
            display_y: 0,
            display_range_x1: 0,
            display_range_x2: 0,
            display_range_y1: 0,
            display_range_y2: 0,
        }
    }

    /// GPUSTAT as software reads it.
    pub fn gpustat(&self) -> (r: u32)
        ensures
            r == reported_gpustat(self.gpustat.0),
    {
        let s = self.gpustat.0;
        let r = crate::register::set(
            crate::register::set(
                crate::register::set(
                    crate::register::clear(
                        crate::register::clear(crate::register::clear(s, 19), 14),
                        31,
                    ),
                    26,
                ),
                27,
            ),
            28,
        );
        assert(((((((s & !(1u32 << 19u32)) & !(1u32 << 14u32)) & !(1u32 << 31u32)) | (1u32
            << 26u32)) | (1u32 << 27u32)) | (1u32 << 28u32)) == (s & 0x7ff7_bfff) | 0x1c00_0000)
            by (bit_vector);
        r
    }

    /// The oldest word waiting in GPUREAD, or 0 when there is none.
    pub fn gpuread(&mut self) -> (r: u32)
        ensures
            old(self).gpuread@.len() == 0 ==> r == 0 && final(self).gpuread@ == old(self).gpuread@,
            old(self).gpuread@.len() > 0 ==> r == old(self).gpuread@[0] && final(self).gpuread@
                == old(self).gpuread@.drop_first(),
            final(self).gpustat == old(self).gpustat,
            final(self).command_buffer == old(self).command_buffer,
            final(self).waiting_for_parameters == old(self).waiting_for_parameters,
            final(self).partial_command == old(self).partial_command,
    {
        match self.gpuread.pop_front() {
            Some(value) => value,
            None => 0,
        }
    }
}

} // verus!
