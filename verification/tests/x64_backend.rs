use rspsx::jit::insn::Insn;
use rspsx::jit::x64_jit::macro_assembler::MacroAssembler;
use rspsx::jit::x64_jit::macro_compiler::destroy_pointers;
use rspsx::jit::x64_jit::register_allocator::{RegisterMap, X64_RAX, X64_RCX, X64_RSP, X64_R12, X64_R15};

const PROLOGUE: [u8; 8] = [0x41, 0x54, 0x41, 0x55, 0x41, 0x56, 0x41, 0x57];
const EPILOGUE: [u8; 9] = [0x41, 0x5f, 0x41, 0x5e, 0x41, 0x5d, 0x41, 0x5c, 0xc3];

fn emitted(masm: &MacroAssembler) -> Vec<u8> {
    masm.bytes()[PROLOGUE.len()..].to_vec()
}

#[test]
fn new_assembler_saves_reserved_registers() {
    let masm = MacroAssembler::new();
    assert_eq!(masm.bytes(), &PROLOGUE.to_vec());
    assert_eq!(masm.len(), 8);
}

#[test]
fn free_and_caller_saved_registers() {
    assert_eq!(MacroAssembler::free_regs(), vec![0, 1, 2, 3, 5, 6, 7, 8, 9, 10, 11, 12, 13, 14, 15]);
    assert_eq!(MacroAssembler::caller_saved_regs(), vec![0, 1, 2, 6, 7, 8, 9, 10, 11]);
}

#[test]
fn mov_encodings() {
    let mut masm = MacroAssembler::new();
    masm.emit_movl_rr(X64_RAX, X64_RCX); // mov ecx, eax
    masm.emit_movl_rr(9, 2); // mov edx, r9d
    masm.emit_movl_ir(0x1234_5678, 10); // mov r10d, imm32
    masm.emit_movq_ir(0x1122_3344_5566_7788, X64_RAX); // mov rax, imm64
    masm.emit_movq_rr(X64_RSP, 15); // mov r15, rsp
    masm.emit_movl_mr(X64_RSP, X64_RAX); // mov eax, [rsp]
    masm.emit_movl_rm(X64_RCX, 5); // mov [rbp+0], ecx
    masm.emit_movl_rm_offset(X64_RCX, X64_R12, 16); // mov [r12+16], ecx
    masm.emit_movl_rm_offset(X64_RCX, X64_RAX, 0x200); // mov [rax+0x200], ecx
    assert_eq!(
        emitted(&masm),
        vec![
            0x89, 0xc1, 0x44, 0x89, 0xca, 0x41, 0xba, 0x78, 0x56, 0x34, 0x12, 0x48, 0xb8, 0x88, 0x77,
            0x66, 0x55, 0x44, 0x33, 0x22, 0x11, 0x49, 0x89, 0xe7, 0x8b, 0x04, 0x24, 0x89, 0x4d, 0x00,
            0x41, 0x89, 0x4c, 0x24, 0x10, 0x89, 0x48, 0x00, 0x02, 0x00, 0x00,
        ]
    );
}

#[test]
fn stack_encodings() {
    let mut masm = MacroAssembler::new();
    assert_eq!(masm.emit_pushq_r(X64_RAX), 8);
    assert_eq!(masm.emit_popq_r(9), -8);
    assert_eq!(masm.emit_pushw_r(X64_RCX), 2);
    assert_eq!(masm.emit_pushl_i(0xdead_beef), 8);
    assert_eq!(masm.emit_pushw_i(0xbeef), 2);
    assert_eq!(masm.emit_pushl_m(5), 8);
    assert_eq!(masm.emit_popl_m(X64_RCX), -8);
    assert_eq!(masm.emit_pushfq(), 8);
    assert_eq!(masm.emit_popfq(), -8);
    assert_eq!(
        emitted(&masm),
        vec![
            0x50, 0x41, 0x59, 0x66, 0x51, 0x68, 0xef, 0xbe, 0xad, 0xde, 0x66, 0x68, 0xef, 0xbe, 0xff,
            0x75, 0x00, 0x8f, 0x01, 0x9c, 0x9d,
        ]
    );
}

#[test]
fn alu_encodings() {
    let mut masm = MacroAssembler::new();
    masm.emit_addl_rr(X64_RCX, X64_RAX); // add eax, ecx
    masm.emit_addq_rr(8, X64_RAX); // add rax, r8
    masm.emit_addq_ir(-8, X64_RSP); // add rsp, -8
    masm.emit_addl_ir(0x1000, X64_RAX); // add eax, 0x1000 (short form)
    masm.emit_addl_ir(0x1000, X64_RCX); // add ecx, 0x1000
    masm.emit_andl_ir(0xff, 11); // and r11d, 0xff
    masm.emit_orl_rr(X64_RCX, X64_RAX); // or eax, ecx
    assert_eq!(
        emitted(&masm),
        vec![
            0x01, 0xc8, 0x4c, 0x01, 0xc0, 0x48, 0x83, 0xc4, 0xf8, 0x05, 0x00, 0x10, 0x00, 0x00, 0x81,
            0xc1, 0x00, 0x10, 0x00, 0x00, 0x41, 0x81, 0xe3, 0xff, 0x00, 0x00, 0x00, 0x09, 0xc8,
        ]
    );
}

#[test]
fn xchg_call_bt_encodings() {
    let mut masm = MacroAssembler::new();
    masm.emit_xchgq_rr(X64_RAX, 3); // xchg rax, rbx
    masm.emit_xchgq_rr(X64_RCX, 10); // xchg rcx, r10
    masm.emit_xchgl_rm_offset(X64_RCX, X64_RSP, 8); // xchg [rsp+8], ecx
    masm.emit_callq_r64(11); // call r11
    masm.emit_callq_m64(X64_RAX); // call [rax]
    masm.emit_btl_ir(3, X64_RCX); // bt ecx, 3
    masm.emit_callq_i(0x10); // call (16-bit form)
    assert_eq!(
        emitted(&masm),
        vec![
            0x48, 0x93, 0x4c, 0x87, 0xd1, 0x87, 0x4c, 0x24, 0x08, 0x41, 0xff, 0xd3, 0xff, 0x10, 0x0f,
            0xba, 0xe1, 0x03, 0x66, 0xe8, 0x10, 0x00,
        ]
    );
}

#[test]
fn labels_resolve_to_relative_distances() {
    let mut masm = MacroAssembler::new();
    let forward = masm.create_undefined_label();
    let back = masm.create_undefined_label();
    assert_eq!((forward, back), (0, 1));
    masm.define_label(back); // at 8
    masm.emit_jmp_label(forward); // 8: eb ??
    masm.emit_nop(); // 10
    masm.define_label(forward); // at 11
    masm.emit_jb_label(back); // 11: 72 ??
    masm.emit_jae_rel8(-2);
    masm.assemble();
    let mut expected = PROLOGUE.to_vec();
    // forward: placeholder at 9, distance 11 - 9 - 1 = 1; back: placeholder at 12, 8 - 12 - 1 = -5
    expected.extend_from_slice(&[0xeb, 0x01, 0x90, 0x72, 0xfb, 0x73, 0xfe]);
    expected.extend_from_slice(&EPILOGUE);
    assert_eq!(masm.bytes(), &expected);
}

#[test]
fn call_label_gets_a_four_byte_distance() {
    let mut masm = MacroAssembler::new();
    let back = masm.create_undefined_label();
    let ahead = masm.create_undefined_label();
    masm.define_label(back); // at 8
    masm.emit_call_label(ahead); // e8 at 8, placeholder at 9
    masm.emit_nop(); // at 13
    masm.emit_call_label(back); // e8 at 14, placeholder at 15
    masm.define_label(ahead); // at 19
    masm.assemble();
    // ahead: 19 - (9 + 4) = 6; back: 8 - (15 + 4) = -11, all four bytes written
    assert_eq!(
        &masm.bytes()[8..19],
        &[0xe8, 0x06, 0x00, 0x00, 0x00, 0x90, 0xe8, 0xf5, 0xff, 0xff, 0xff]
    );
}

#[test]
fn new_register_map_is_a_permutation() {
    let insns: Vec<Insn> = Vec::new();
    let map = RegisterMap::new(&insns);
    assert_eq!(map.count_spilled(), 64);
    let mut seen = Vec::new();
    for m in 1..=31u32 {
        assert!(map.mips_to_x64(m).is_some());
        seen.push(m);
    }
    assert!(map.mips_to_x64(0).is_none());
    assert!(map.mips_to_x64(32).is_none());
    let bound = (1..=31u32).filter(|&m| map.mips_is_bound(m)).count();
    assert_eq!(bound, 15);
    for x in 0..16u32 {
        assert_eq!(map.gpr_is_bound(x), x != X64_RSP);
    }
    assert!(!map.gpr_is_bound(16));
}

#[test]
fn new_register_map_is_shuffled() {
    // the registers come out in a random order; all 31! orders are possible, so the
    // identity shows up with negligible probability
    let insns: Vec<Insn> = Vec::new();
    let map = RegisterMap::new(&insns);
    let free = MacroAssembler::free_regs();
    let in_order = (1..=15u32).all(|m| map.mips_to_x64(m).map(|mp| mp.bound_gpr()) == Some(free[(m - 1) as usize]));
    assert!(!in_order);
}

#[test]
fn swap_brings_register_into_place() {
    let insns: Vec<Insn> = Vec::new();
    let mut map = RegisterMap::new(&insns);
    // find a MIPS register bound to RCX and one bound to R15
    let in_rcx = (1..=31u32).find(|&m| map.mips_is_bound(m) && map.mips_to_x64(m).unwrap().bound_gpr() == X64_RCX).unwrap();
    let in_r15 = (1..=31u32).find(|&m| map.mips_is_bound(m) && map.mips_to_x64(m).unwrap().bound_gpr() == X64_R15).unwrap();
    let mut masm = MacroAssembler::new();
    masm.emit_swap_mips_registers(&mut map, in_r15, X64_RCX);
    assert_eq!(map.mips_to_x64(in_r15).unwrap().bound_gpr(), X64_RCX);
    assert_eq!(map.mips_to_x64(in_rcx).unwrap().bound_gpr(), X64_R15);
    // xchg rcx, r15 as xchg r64, r64 with reg1 = r15 and reg2 = rcx
    assert_eq!(emitted(&masm), vec![0x49, 0x87, 0xcf]);
    assert_eq!(map.count_spilled(), 64);
}

#[test]
fn swap_from_stack_exchanges_with_memory() {
    let insns: Vec<Insn> = Vec::new();
    let mut map = RegisterMap::new(&insns);
    let spilled = (1..=31u32).find(|&m| !map.mips_is_bound(m)).unwrap();
    let mut masm = MacroAssembler::new();
    masm.emit_swap_mips_registers(&mut map, spilled, X64_RAX);
    assert!(map.mips_is_bound(spilled));
    assert_eq!(map.mips_to_x64(spilled).unwrap().bound_gpr(), X64_RAX);
    assert_eq!(map.count_spilled(), 64);
    let code = emitted(&masm);
    // xchg [rsp + offset], eax
    assert_eq!(&code[0..3], &[0x87, if code.len() == 3 { 0x04 } else { 0x44 }, 0x24]);
}

#[test]
fn caller_registers_saved_and_restored() {
    let insns: Vec<Insn> = Vec::new();
    let map = RegisterMap::new(&insns);
    let mut masm = MacroAssembler::new();
    // all nine caller-saved registers hold MIPS registers: 72 bytes, misaligned by 8
    let (sp, misalignment) = masm.emit_save_caller_regs(&map, 0);
    assert_eq!((sp, misalignment), (80, 8));
    let back = masm.emit_load_caller_regs(&map, sp, misalignment);
    assert_eq!(back, 0);
    let code = emitted(&masm);
    assert_eq!(&code[0..3], &[0x50, 0x51, 0x52]);
    // nine pushes (RAX, RCX, RDX, RSI, RDI in one byte, R8 to R11 in two), two
    // stack adjustments of four bytes, nine pops
    assert_eq!(code.len(), 13 + 4 + 4 + 13);
    let mut m2 = MacroAssembler::new();
    assert_eq!(m2.emit_push_reg(X64_RCX), 8);
    assert_eq!(m2.emit_pop_reg(X64_RCX), -8);
    assert_eq!(emitted(&m2), vec![0x51, 0x59]);
}

#[test]
fn destroying_pointers_moves_the_stack_back() {
    let mut masm = MacroAssembler::new();
    let off = destroy_pointers(&mut masm, 88);
    assert_eq!(off.0, -88);
    assert_eq!(emitted(&masm), vec![0x48, 0x83, 0xc4, 0x58]);
}

#[test]
fn swap_and_call_encodings() {
    let mut masm = MacroAssembler::new();
    masm.emit_swap(X64_RCX);
    masm.emit_swap(X64_R12);
    masm.emit_call(0x1122_3344_5566_7788, 0x10);
    masm.test(0x20);
    let mut expected = vec![0x49, 0xc1, 0xc1, 0x20, 0x48, 0xc1, 0xc4, 0x20];
    expected.extend_from_slice(&[0x48, 0xb8, 0x88, 0x77, 0x66, 0x55, 0x44, 0x33, 0x22, 0x11]);
    expected.extend_from_slice(&[0x48, 0xbf, 0x10, 0, 0, 0, 0, 0, 0, 0]);
    expected.extend_from_slice(&[0x48, 0x83, 0xec, 0x08, 0xff, 0xd0, 0x48, 0x83, 0xc4, 0x08]);
    expected.extend_from_slice(&[0x48, 0xb8, 0x20, 0, 0, 0, 0, 0, 0, 0, 0xff, 0xd0]);
    assert_eq!(emitted(&masm), expected);
}

#[test]
fn map_from_order_binds_the_first_fifteen() {
    let order: Vec<u32> = (1..=31).rev().collect();
    let map = RegisterMap::from_order(&order);
    // R31 comes first and takes RAX, R17 is fifteenth and takes R15 (RSP is skipped)
    assert_eq!(map.mips_to_x64(31).unwrap().bound_gpr(), X64_RAX);
    assert_eq!(map.mips_to_x64(17).unwrap().bound_gpr(), X64_R15);
    assert!(map.mips_is_bound(17));
    assert!(!map.mips_is_bound(16));
    assert!(!map.mips_is_bound(1));
    assert_eq!(map.count_spilled(), 64);
}
