//! Instruction field decoding and little-endian access to byte arrays.
use vstd::prelude::*;
use crate::register::bit_field;
use crate::register::range;
use crate::register::half;
use crate::register::lowest_bits;
use crate::register::upper_bits;
use crate::register::byte;
use vstd::arithmetic::power2::lemma2_to64;

verus! {

/// The little-endian half word stored at `address` in `bytes`.
pub open spec fn le_half(bytes: Seq<u8>, address: int) -> u32 {
    (bytes[address] as nat + bytes[address + 1] as nat * 0x100) as u32
}

/// The little-endian word stored at `address` in `bytes`.
pub open spec fn le_word(bytes: Seq<u8>, address: int) -> u32 {
    (bytes[address] as nat + bytes[address + 1] as nat * 0x100 + bytes[address + 2] as nat
        * 0x1_0000 + bytes[address + 3] as nat * 0x100_0000) as u32
}

/// `bytes` with the low half word of `value` stored little-endian at `address`.
pub open spec fn half_stored(bytes: Seq<u8>, address: int, value: u32) -> Seq<u8> {
    bytes.update(address, (value % 0x100) as u8).update(address + 1, (value / 0x100 % 0x100) as u8)
}

/// `bytes` with `value` stored little-endian at `address`.
pub open spec fn word_stored(bytes: Seq<u8>, address: int, value: u32) -> Seq<u8> {
    bytes.update(address, (value % 0x100) as u8).update(address + 1, (value / 0x100 % 0x100) as u8)
        .update(address + 2, (value / 0x1_0000 % 0x100) as u8).update(
        address + 3,
        (value / 0x100_0000) as u8,
    )
}

/// A word read back from where it was stored is the word that was stored, and
/// every byte outside the four it occupies is left as it was.
pub proof fn lemma_word_read_after_write(bytes: Seq<u8>, address: int, value: u32)
    requires
        0 <= address,
        address + 3 < bytes.len(),
    ensures
        le_word(word_stored(bytes, address, value), address) == value,
        word_stored(bytes, address, value).len() == bytes.len(),
        forall|i: int|
            0 <= i < bytes.len() && (i < address || address + 3 < i) ==> #[trigger] word_stored(
                bytes,
                address,
                value,
            )[i] == bytes[i],
{
    assert(value % 0x100 + (value / 0x100 % 0x100) * 0x100 + (value / 0x1_0000 % 0x100) * 0x1_0000
        + (value / 0x100_0000) * 0x100_0000 == value) by (bit_vector);
}

/// A half word read back from where it was stored is the low half of the value
/// that was stored, and every other byte is left as it was.
pub proof fn lemma_half_read_after_write(bytes: Seq<u8>, address: int, value: u32)
    requires
        0 <= address,
        address + 1 < bytes.len(),
    ensures
        le_half(half_stored(bytes, address, value), address) == value % 0x1_0000,
        half_stored(bytes, address, value).len() == bytes.len(),
        forall|i: int|
            0 <= i < bytes.len() && (i < address || address + 1 < i) ==> #[trigger] half_stored(
                bytes,
                address,
                value,
            )[i] == bytes[i],
{
    assert(value % 0x100 + (value / 0x100 % 0x100) * 0x100 == value % 0x1_0000) by (bit_vector);
}

/// Reads bytes, half words and words (little-endian) out of a byte array.
pub trait ReadArray {
    /// The bytes that are read.
    spec fn bytes(&self) -> Seq<u8>;

    fn read_byte(&self, address: u32) -> (r: u32)
        requires
            (address as int) < self.bytes().len(),
        ensures
            r == self.bytes()[address as int],
    ;

    fn read_half(&self, address: u32) -> (r: u32)
        requires
            address + 1 < self.bytes().len(),
        ensures
            r == le_half(self.bytes(), address as int),
    ;

    fn read_word(&self, address: u32) -> (r: u32)
        requires
            address + 3 < self.bytes().len(),
        ensures
            r == le_word(self.bytes(), address as int),
    ;
}

/// Writes bytes, half words and words (little-endian) into a byte array.
pub trait WriteArray {
    /// The bytes that are written.
    spec fn bytes(&self) -> Seq<u8>;

    fn write_byte(&mut self, address: u32, value: u32)
        requires
            (address as int) < old(self).bytes().len(),
        ensures
            final(self).bytes() == old(self).bytes().update(address as int, (value % 0x100) as u8),
    ;

    fn write_half(&mut self, address: u32, value: u32)
        requires
            address + 1 < old(self).bytes().len(),
        ensures
            final(self).bytes() == half_stored(old(self).bytes(), address as int, value),
    ;

    fn write_word(&mut self, address: u32, value: u32)
        requires
            address + 3 < old(self).bytes().len(),
        ensures
            final(self).bytes() == word_stored(old(self).bytes(), address as int, value),
    ;
}

impl<'a> ReadArray for &'a [u8] {
    open spec fn bytes(&self) -> Seq<u8> {
        (**self)@
    }

    fn read_byte(&self, address: u32) -> (r: u32) {
        let address = address as usize;
        self[address] as u32
    }

    fn read_half(&self, address: u32) -> (r: u32) {
        let address = address as usize;
        let b0 = self[address] as u32;
        let b1 = self[address + 1] as u32;
        assert(b0 | b1 << 8 == b0 + b1 * 0x100) by (bit_vector)
            requires b0 < 0x100, b1 < 0x100;
        b0 | b1 << 8
    }

    fn read_word(&self, address: u32) -> (r: u32) {
        let address = address as usize;
        let b0 = self[address] as u32;
        let b1 = self[address + 1] as u32;
        let b2 = self[address + 2] as u32;
        let b3 = self[address + 3] as u32;
        assert(b0 | b1 << 8 | b2 << 16 | b3 << 24 == b0 + b1 * 0x100 + b2 * 0x1_0000 + b3
            * 0x100_0000) by (bit_vector)
            requires b0 < 0x100, b1 < 0x100, b2 < 0x100, b3 < 0x100;
        b0 | b1 << 8 | b2 << 16 | b3 << 24
    }
}

impl<'a> WriteArray for &'a mut [u8] {
    open spec fn bytes(&self) -> Seq<u8> {
        (**self)@
    }

    fn write_byte(&mut self, address: u32, value: u32) {
        let address = address as usize;
        self[address] = byte(value) as u8;
    }

    fn write_half(&mut self, address: u32, value: u32) {
        let address = address as usize;
        proof {
            lemma2_to64();
        }
        self[address] = byte(value) as u8;
        self[address + 1] = byte(upper_bits(value, 24)) as u8;
    }

    fn write_word(&mut self, address: u32, value: u32) {
        let address = address as usize;
        proof {
            lemma2_to64();
        }
        self[address] = byte(value) as u8;
        self[address + 1] = byte(upper_bits(value, 24)) as u8;
        self[address + 2] = byte(upper_bits(value, 16)) as u8;
        self[address + 3] = byte(upper_bits(value, 8)) as u8;
    }
}

/// Register field `rs` (bits 21 to 25) of an instruction.
pub open spec fn rs_field(op: u32) -> u32 {
    (op / 0x20_0000 % 0x20) as u32
}

/// Register field `rt` (bits 16 to 20) of an instruction.
pub open spec fn rt_field(op: u32) -> u32 {
    (op / 0x1_0000 % 0x20) as u32
}

/// Register field `rd` (bits 11 to 15) of an instruction.
pub open spec fn rd_field(op: u32) -> u32 {
    (op / 0x800 % 0x20) as u32
}

/// Shift amount field (bits 6 to 10) of an instruction.
pub open spec fn imm5_field(op: u32) -> u32 {
    (op / 0x40 % 0x20) as u32
}

/// Immediate field (bits 0 to 15) of an instruction.
pub open spec fn imm16_field(op: u32) -> u32 {
    op % 0x1_0000
}

/// Coprocessor command field (bits 0 to 24) of an instruction.
pub open spec fn imm25_field(op: u32) -> u32 {
    op % 0x200_0000
}

/// Jump target field (bits 0 to 25) of an instruction.
pub open spec fn imm26_field(op: u32) -> u32 {
    op % 0x400_0000
}

/// Primary opcode (bits 26 to 31) of an instruction.
pub open spec fn primary_field(op: u32) -> u32 {
    op / 0x400_0000
}

/// Secondary opcode (bits 0 to 5) of an instruction.
pub open spec fn secondary_field(op: u32) -> u32 {
    op % 0x40
}

pub fn get_rs(op: u32) -> (r: u32)
    ensures
        r == rs_field(op),
        r < 32,
{
    proof {
        lemma2_to64();
    }
    range(op, 21, 25)
}

pub fn get_rt(op: u32) -> (r: u32)
    ensures
        r == rt_field(op),
        r < 32,
{
    proof {
        lemma2_to64();
    }
    range(op, 16, 20)
}

pub fn get_rd(op: u32) -> (r: u32)
    ensures
        r == rd_field(op),
        r < 32,
{
    proof {
        lemma2_to64();
    }
    range(op, 11, 15)
}

pub fn get_imm5(op: u32) -> (r: u32)
    ensures
        r == imm5_field(op),
        r < 32,
{
    proof {
        lemma2_to64();
    }
    range(op, 6, 10)
}

pub fn get_imm16(op: u32) -> (r: u32)
    ensures
        r == imm16_field(op),
        r < 0x1_0000,
{
    half(op)
}

pub fn get_imm25(op: u32) -> (r: u32)
    ensures
        r == imm25_field(op),
{
    proof {
        lemma2_to64();
    }
    lowest_bits(op, 25)
}

pub fn get_imm26(op: u32) -> (r: u32)
    ensures
        r == imm26_field(op),
{
    proof {
        lemma2_to64();
    }
    lowest_bits(op, 26)
}

pub fn get_primary_field(op: u32) -> (r: u32)
    ensures
        r == primary_field(op),
        r < 0x40,
{
    proof {
        lemma2_to64();
    }
    upper_bits(op, 6)
}

pub fn get_secondary_field(op: u32) -> (r: u32)
    ensures
        r == secondary_field(op),
        r < 0x40,
{
    proof {
        lemma2_to64();
    }
    lowest_bits(op, 6)
}

} // verus!
