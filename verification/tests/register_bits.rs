use rspsx::common::{get_imm16, get_imm26, get_primary_field, get_rd, get_rs, get_rt, get_secondary_field, ReadArray, WriteArray};
use rspsx::register::{byte_sign_extended, compare, from_signed, half_sign_extended, lowest_bits, nor, nth_bit, range, signed_compare, sra, to_signed, upper_bits};

#[test]
fn fields_of_an_instruction() {
    // ADDU r3, r1, r2
    let op = 0x0022_1821;
    assert_eq!(get_primary_field(op), 0);
    assert_eq!(get_secondary_field(op), 0x21);
    assert_eq!(get_rs(op), 1);
    assert_eq!(get_rt(op), 2);
    assert_eq!(get_rd(op), 3);
    assert_eq!(get_imm16(0x2401_fffe), 0xfffe);
    assert_eq!(get_imm26(0x0bff_ffff), 0x03ff_ffff);
}

#[test]
fn bit_fields() {
    assert_eq!(lowest_bits(0xabcd_1234, 8), 0x34);
    assert_eq!(upper_bits(0xabcd_1234, 4), 0xa);
    assert_eq!(range(0xabcd_1234, 8, 15), 0x12);
    assert_eq!(nth_bit(0x8000_0000, 31), 1);
    assert_eq!(nth_bit(0x8000_0000, 30), 0);
}

#[test]
fn sign_extension_and_comparisons() {
    assert_eq!(half_sign_extended(0x8000), 0xffff_8000);
    assert_eq!(half_sign_extended(0x7fff), 0x7fff);
    assert_eq!(byte_sign_extended(0x80), 0xffff_ff80);
    assert_eq!(signed_compare(0xffff_ffff, 0), 1);
    assert_eq!(compare(0xffff_ffff, 0), 0);
    assert_eq!(sra(0x8000_0000, 4), 0xf800_0000);
    assert_eq!(nor(0, 0), 0xffff_ffff);
    assert_eq!(to_signed(0xffff_fffe), -2);
    assert_eq!(from_signed(-2), 0xffff_fffe);
}

#[test]
fn little_endian_array_access() {
    let mut bytes = vec![0u8; 8];
    {
        let mut slice: &mut [u8] = &mut bytes[..];
        slice.write_word(0, 0x1122_3344);
        slice.write_half(4, 0xaabb);
        slice.write_byte(6, 0x1ff);
    }
    assert_eq!(bytes, vec![0x44, 0x33, 0x22, 0x11, 0xbb, 0xaa, 0xff, 0x00]);
    let slice: &[u8] = &bytes[..];
    assert_eq!(slice.read_word(0), 0x1122_3344);
    assert_eq!(slice.read_half(4), 0xaabb);
    assert_eq!(slice.read_byte(6), 0xff);
}
