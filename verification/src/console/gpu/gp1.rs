//! GP1: display control commands.
use vstd::prelude::*;
use super::GPU;
use crate::register::lowest_bits;
use crate::register::clear;
use crate::register::clear_mask;
use crate::register::set_mask;
use crate::register::lemma_shr_is_div;
use vstd::arithmetic::power2::lemma2_to64;

verus! {

/// The GP1 commands that are carried out.
pub open spec fn known_gp1(command: u32) -> bool {
    command == 0x00 || (0x03 <= command <= 0x08)
}

/// The status register after a GP1 command word.
pub open spec fn gpustat_after_gp1(stat: u32, value: u32) -> u32 {
    let command = value / 0x100_0000;
    if command == 0x00 {
        0x1480_2000
    } else if command == 0x03 {
        // the display enable bit is taken from the low bit of the command number
        (stat & !0x80_0000u32) | ((command % 2) << 23)
    } else if command == 0x04 {
        (stat & !0x6000_0000u32) | ((value & 3) << 29)
    } else if command == 0x08 {
        (stat & !0x003f_4000u32) | (((value & 0x3f) << 17) | (value & 0x40) << 16 | (value & 0x80)
            << 14)
    } else {
        stat
    }
}

/// What each GP1 command does to GPUSTAT, bit by bit: GP1(00h) resets it; GP1(03h)
/// sets the display-disable bit (23) from the low bit of the command number; GP1(04h)
/// sets the DMA direction (bits 29 and 30) to the low two bits of the word; GP1(08h)
/// sets the horizontal resolution (bits 17 and 18) from bits 0 and 1, the vertical
/// resolution (bit 19) from bit 2 and the video mode (bit 20) from bit 3, clears bits
/// 14 and 16, and sets bits 21 and 22 from bits 4 to 7 of the word. Every bit not
/// named keeps its value, and the other commands leave GPUSTAT alone.
pub proof fn lemma_gp1_status_bits(stat: u32, value: u32)
    ensures
        ({
            let command = value / 0x100_0000;
            let after = gpustat_after_gp1(stat, value);
            &&& command == 0x00 ==> after == 0x1480_2000
            &&& command == 0x03 ==> (after >> 23) & 1 == command % 2 && after & !0x80_0000u32
                == stat & !0x80_0000u32
            &&& command == 0x04 ==> (after >> 29) & 3 == value & 3 && after & !0x6000_0000u32
                == stat & !0x6000_0000u32
            &&& command == 0x08 ==> (after >> 17) & 0xf == value & 0xf && (after >> 16) & 1 == 0
                && (after >> 14) & 1 == 0 && after & !0x007f_4000u32 == stat & !0x007f_4000u32
            &&& command != 0x00 && command != 0x03 && command != 0x04 && command != 0x08
                ==> after == stat
        }),
{
    let command = value / 0x100_0000;
    let after = gpustat_after_gp1(stat, value);
    if command == 0x03 {
        let c = command % 2;
        assert(c <= 1);
        assert(c <= 1 ==> (((stat & !0x80_0000u32) | (c << 23)) >> 23) & 1 == c && ((stat
            & !0x80_0000u32) | (c << 23)) & !0x80_0000u32 == stat & !0x80_0000u32) by (bit_vector);
    } else if command == 0x04 {
        assert((((stat & !0x6000_0000u32) | ((value & 3) << 29)) >> 29) & 3 == value & 3 && ((stat
            & !0x6000_0000u32) | ((value & 3) << 29)) & !0x6000_0000u32 == stat & !0x6000_0000u32)
            by (bit_vector);
    } else if command == 0x08 {
        assert(({
            let a = (stat & !0x003f_4000u32) | (((value & 0x3f) << 17) | (value & 0x40) << 16 | (
            value & 0x80) << 14);
            (a >> 17) & 0xf == value & 0xf && (a >> 16) & 1 == 0 && (a >> 14) & 1 == 0 && a
                & !0x007f_4000u32 == stat & !0x007f_4000u32
        })) by (bit_vector);
    }
}

/// What a GP1 command word does to the GPU.
pub open spec fn gp1_written(pre: GPU, post: GPU, value: u32) -> bool {
    &&& post.gpustat.0 == gpustat_after_gp1(pre.gpustat.0, value)
    &&& ({
                let command = value / 0x100_0000;
                &&& command == 0x05 ==> post.display_x == command % 0x400 && post.display_y == command / 0x400 % 0x200
                &&& command != 0x05 ==> post.display_x == pre.display_x && post.display_y == pre.display_y
                &&& command == 0x06 ==> post.display_range_x1 == command % 0x1000 && post.display_range_x2 == command / 0x1000 % 0x1000
                &&& command != 0x06 ==> post.display_range_x1 == pre.display_range_x1
                    && post.display_range_x2 == pre.display_range_x2
                &&& command == 0x07 ==> post.display_range_y1 == command % 0x400 && post.display_range_y2 == command / 0x400 % 0x400
                &&& command != 0x07 ==> post.display_range_y1 == pre.display_range_y1
                    && post.display_range_y2 == pre.display_range_y2
            })
    &&& post.command_buffer == pre.command_buffer
    &&& post.partial_command == pre.partial_command
    &&& post.waiting_for_parameters == pre.waiting_for_parameters
    &&& post.gpuread == pre.gpuread
    &&& post.logging == pre.logging
}

impl GPU {
    /// Whether GP1 carries out command word `value`.
    pub fn accepts_gp1(value: u32) -> (r: bool)
        ensures
            r == known_gp1(value / 0x100_0000),
    {
        let command = value >> 24;
        proof {
            lemma_shr_is_div(value);
        }
        command == 0x00 || (0x03 <= command && command <= 0x08)
    }

    /// Carries out one GP1 command word.
    pub fn write_to_gp1(&mut self, value: u32)
        requires
            known_gp1(value / 0x100_0000),
        ensures
            gp1_written(*old(self), *final(self), value),
    {
        let command = value >> 24;
        proof { lemma_shr_is_div(value); }
        proof {
            lemma2_to64();
        }
        if command == 0x00 {
            self.gpustat.0 = 0x1480_2000;
        } else if command == 0x03 {
            let stat = self.gpustat.0;
            self.gpustat.0 = set_mask(clear(stat, 23), lowest_bits(command, 1) << 23);
            assert(1u32 << 23u32 == 0x80_0000) by (bit_vector);
        } else if command == 0x04 {
            let mask = 0x6000_0000;
            let new_values = (value & 3) << 29;
            let stat = self.gpustat.0;
            self.gpustat.0 = set_mask(clear_mask(stat, mask), new_values);
        } else if command == 0x05 {
            self.display_x = lowest_bits(command, 10);
            self.display_y = lowest_bits(command >> 10, 9);
            proof { lemma_shr_is_div(command); }
        } else if command == 0x06 {
            self.display_range_x1 = lowest_bits(command, 12);
            self.display_range_x2 = lowest_bits(command >> 12, 12);
            proof { lemma_shr_is_div(command); }
        } else if command == 0x07 {
            self.display_range_y1 = lowest_bits(command, 10);
            self.display_range_y2 = lowest_bits(command >> 10, 10);
            proof { lemma_shr_is_div(command); }
        } else {
            let mask = 0x003f_4000;
            let new_values = ((value & 0x3f) << 17) | (value & 0x40) << 16 | (value & 0x80) << 14;
            let stat = self.gpustat.0;
            self.gpustat.0 = set_mask(clear_mask(stat, mask), new_values);
        }
    }
}

} // verus!
