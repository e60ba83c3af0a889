use rspsx::console::Console;
use rspsx::console::MaybeSet;
use rspsx::jit::caching_interpreter::block::Block;
use rspsx::jit::caching_interpreter::stub::Stub;
use rspsx::jit::caching_interpreter::{block_len, steps_when_branching, tag_opcodes, CachingInterpreter, NextStep};
use rspsx::jit::insn::Insn;
use rspsx::jit::jumps::{compile_jump, compile_jump_internal, is_block_end};
use rspsx::jit::{stub_len, JIT};

fn console_at(pc: u32) -> Console {
    let mut c = Console::new(false, None);
    *c.r3000.pc_mut() = pc;
    c
}

#[test]
fn jump_j_keeps_upper_pc_bits() {
    let mut c = console_at(0x8001_0000);
    // J 0x0100: target = (pc & 0xf0000000) + 0x100 * 4
    let r = compile_jump_internal(&mut c, 0x0800_0100);
    assert_eq!(r, Some(0x8000_0400));
    assert_eq!(c.modified_register, None);
}

#[test]
fn jump_jal_links_return_address() {
    let mut c = console_at(0x8001_0000);
    let r = compile_jump_internal(&mut c, 0x0c00_0100);
    assert_eq!(r, Some(0x8000_0400));
    assert_eq!(c.r3000.nth_reg(31), 0x8001_0004);
}

#[test]
fn jump_beq_taken_and_not_taken() {
    let mut c = console_at(0x1000);
    c.r3000.nth_reg_mut(1).maybe_set(7);
    c.r3000.nth_reg_mut(2).maybe_set(7);
    // BEQ r1, r2, -2
    assert_eq!(compile_jump_internal(&mut c, 0x1022_fffe), Some(0x0ff8));
    // BNE r1, r2, -2
    assert_eq!(compile_jump_internal(&mut c, 0x1422_fffe), None);
}

#[test]
fn jump_bltz_on_negative_register() {
    let mut c = console_at(0x1000);
    c.r3000.nth_reg_mut(3).maybe_set(0xffff_fff0);
    // BLTZ r3, 4
    assert_eq!(compile_jump_internal(&mut c, 0x0460_0004), Some(0x1010));
    // BGEZ r3, 4
    assert_eq!(compile_jump_internal(&mut c, 0x0461_0004), None);
}

#[test]
fn jump_jr_misaligned_raises_address_error() {
    let mut c = console_at(0x2000);
    c.r3000.nth_reg_mut(4).maybe_set(0x8000_0002);
    // JR r4
    let r = compile_jump_internal(&mut c, 0x0080_0008);
    assert_eq!(r, None);
    assert_eq!(c.r3000.pc(), 0x8000_0080);
    assert_eq!(c.cop0.nth_data_reg(14), 0x2000);
    assert_eq!((c.cop0.nth_data_reg(13) >> 2) & 0x1f, 0x04);
}

#[test]
fn jump_jr_aligned_transfers() {
    let mut c = console_at(0x2000);
    c.r3000.nth_reg_mut(4).maybe_set(0x8000_0100);
    assert_eq!(compile_jump_internal(&mut c, 0x0080_0008), Some(0x8000_0100));
}

#[test]
fn jump_syscall_goes_to_the_handler() {
    let mut c = console_at(0x3000);
    assert_eq!(compile_jump_internal(&mut c, 0x0000_000c), Some(0x8000_0080));
    assert_eq!(c.cop0.nth_data_reg(14), 0x3000);
}

#[test]
fn compile_jump_defaults_to_next_instruction() {
    let mut c = console_at(0x1000);
    c.r3000.nth_reg_mut(1).maybe_set(1);
    // BEQ r1, r0, 8 is not taken
    compile_jump(&mut c, 0x1020_0008);
    assert_eq!(c.next_pc, Some(0x1004));
}

#[test]
fn block_ends_after_delay_slot() {
    assert!(is_block_end(0x0800_0000));
    assert!(!is_block_end(0x2401_0001));
    // ADDIU, J, delay slot, more
    let words = vec![0x2401_0001, 0x0800_0000, 0x0000_0000, 0x2402_0002];
    assert_eq!(block_len(&words), Some(3));
    assert_eq!(block_len(&vec![0x2401_0001, 0x0800_0000]), None);
    assert_eq!(stub_len(&words), Some(3));
    // a SYSCALL ends a stub without a delay slot
    assert_eq!(stub_len(&vec![0x2401_0001, 0x0000_000c, 0x1]), Some(2));
}

#[test]
fn tagged_offsets_count_from_four() {
    let words = vec![0x2401_0001, 0x0800_0000, 0x0000_0000];
    let tagged = tag_opcodes(&words, 3);
    assert_eq!(tagged.len(), 3);
    assert_eq!(tagged[0].offset(), 4);
    assert_eq!(tagged[2].offset(), 12);
    assert_eq!(tagged[1].op(), 0x0800_0000);
}

#[test]
fn optimized_block_folds_lui_ori() {
    // LUI r1, 0x1f80 ; ORI r1, r1, 0x1010 ; ADDU r2, r1, r1
    let insns = vec![Insn::new(0x3c01_1f80, 4), Insn::new(0x3421_1010, 8), Insn::new(0x0021_1021, 12)];
    let stubs = Block::create_optimized_stubs(&insns);
    assert_eq!(
        stubs,
        vec![
            Stub::Opcode(0x3c01_1f80),
            Stub::LoadConstant { register: 1, value: 0x1f80_1010 },
            Stub::Opcode(0x0021_1021),
        ]
    );
    let plain = Block::create_stubs(&insns);
    assert_eq!(plain.len(), 3);
    assert_eq!(plain[1], Stub::Opcode(0x3421_1010));
}

#[test]
fn optimized_block_drops_writes_to_r0_outside_delay_slots() {
    // ADDU r0, r1, r1 (not after a branch): dropped
    let insns = vec![Insn::new(0x0021_0021, 4)];
    assert_eq!(Block::create_optimized_stubs(&insns), vec![]);
    // J 0 ; ADDU r0, r1, r1 in the delay slot: a stub that does nothing
    let insns = vec![Insn::new(0x0800_0000, 4), Insn::new(0x0021_0021, 8)];
    assert_eq!(Block::create_optimized_stubs(&insns), vec![Stub::Opcode(0x0800_0000), Stub::Nop]);
}

#[test]
fn optimized_block_uses_r0_as_zero() {
    // ADDIU r5, r0, -1
    let insns = vec![Insn::new(0x2405_ffff, 4)];
    assert_eq!(Block::create_optimized_stubs(&insns), vec![Stub::LoadConstant { register: 5, value: 0xffff_ffff }]);
}

#[test]
fn caching_interpreter_translates_and_records_ranges() {
    let mut ci = CachingInterpreter::new(false, None);
    // pc is 0xbfc00000 after reset
    let words = vec![0x2401_0001, 0x0800_0000, 0x0000_0000];
    ci.translate(&words, true);
    let block = ci.blocks.get(&0x1fc0_0000).unwrap();
    assert_eq!(block.final_pc(), 0x1fc0_0008);
    assert_eq!(block.nominal_len(), 3);
    assert_eq!(ci.ranges_compiled.get(&0x1fc0_0008), Some(&vec![0x1fc0_0000]));
}

#[test]
fn cache_invalidation_drops_blocks_that_reach_the_overwritten_one() {
    let mut ci = CachingInterpreter::new(false, None);
    // three blocks that all end at 0xbfc00008: from 0xbfc00000, 0xbfc00004 and 0xbfc00008
    ci.translate(&vec![0x2401_0001, 0x0800_0000, 0x0000_0000], false);
    *ci.console.r3000.pc_mut() = 0xbfc0_0004;
    ci.translate(&vec![0x0800_0000, 0x0000_0000], false);
    *ci.console.r3000.pc_mut() = 0xbfc0_0008;
    ci.translate(&vec![0x0000_000c], false);
    *ci.console.r3000.pc_mut() = 0xbfc0_0100;
    ci.translate(&vec![0x0000_000c], false);
    assert_eq!(ci.ranges_compiled.get(&0x1fc0_0008), Some(&vec![0x1fc0_0000, 0x1fc0_0004, 0x1fc0_0008]));
    ci.cache_invalidation(0x1fc0_0004);
    let mut left: Vec<u32> = ci.blocks.keys().copied().collect();
    left.sort();
    assert_eq!(left, vec![0x1fc0_0008, 0x1fc0_0100]);
    assert_eq!(ci.ranges_compiled.get(&0x1fc0_0008), Some(&vec![0x1fc0_0008]));
    assert_eq!(ci.ranges_compiled.get(&0x1fc0_0100), Some(&vec![0x1fc0_0100]));
}

#[test]
fn jit_compiles_stub_under_physical_address() {
    let mut jit = JIT::new(false, None);
    jit.compile_stub(vec![0x2401_0001, 0x0000_000c]);
    let stub = jit.stubs.get(&0x1fc0_0000).unwrap();
    assert_eq!(stub.operations(), &vec![0x2401_0001, 0x0000_000c]);
    assert_eq!(stub.final_pc(), 0xbfc0_0004);
    assert_eq!(jit.ranges_compiled.get(&0x1fc0_0004), Some(&vec![0x1fc0_0000]));
}

#[test]
fn jit_cache_invalidation_drops_covering_stubs() {
    let mut jit = JIT::new(false, None);
    // 0xbfc00000..0xbfc00004 and 0xbfc00100, both in the BIOS segment
    jit.compile_stub(vec![0x2401_0001, 0x0000_000c]);
    *jit.console.r3000.pc_mut() = 0xbfc0_0100;
    jit.compile_stub(vec![0x0000_000c]);
    // a stub in the user segment, where virtual and physical addresses agree
    *jit.console.r3000.pc_mut() = 0x0000_1000;
    jit.compile_stub(vec![0x0000_000c]);
    jit.console.overwritten.insert(0x1fc0_0004);
    jit.console.overwritten.insert(0x0000_1000);
    jit.console.overwritten.insert(0x0000_2000);
    jit.cache_invalidation();
    assert!(jit.console.overwritten.is_empty());
    let mut left: Vec<u32> = jit.stubs.keys().copied().collect();
    left.sort();
    assert_eq!(left, vec![0x1fc0_0100]);
    // the range map is keyed by physical end, the stub by its virtual final pc
    assert_eq!(jit.ranges_compiled.get(&0x1fc0_0004), Some(&vec![0x1fc0_0000]));
    assert_eq!(jit.ranges_compiled.get(&0x0000_1000), None);
    assert_eq!(jit.ranges_compiled.get(&0x1fc0_0100), Some(&vec![0x1fc0_0100]));
}

#[test]
fn run_loop_looks_up_then_translates() {
    let mut ci = CachingInterpreter::new(false, None);
    assert_eq!(ci.next_step(), NextStep::Translate(0x1fc0_0000));
    ci.translate(&vec![0x2401_0001, 0x0800_0000, 0x0000_0000], false);
    assert_eq!(ci.next_step(), NextStep::RunBlock(0x1fc0_0000));
}

#[test]
fn finish_block_counts_and_keeps_untouched_block() {
    let mut ci = CachingInterpreter::new(false, None);
    ci.translate(&vec![0x2401_0001, 0x0800_0000, 0x0000_0000], false);
    ci.console.overwritten.insert(0x1fc0_000c);
    ci.console.overwritten.insert(0x1fbf_fffc);
    assert!(!ci.finish_block(0x1fc0_0000, 3));
    assert_eq!(ci.console.i, 3);
    assert!(ci.console.overwritten.is_empty());
    assert!(ci.blocks.contains_key(&0x1fc0_0000));
}

#[test]
fn finish_block_invalidates_a_written_block() {
    let mut ci = CachingInterpreter::new(false, None);
    ci.translate(&vec![0x2401_0001, 0x0800_0000, 0x0000_0000], false);
    *ci.console.r3000.pc_mut() = 0xbfc0_0004;
    ci.translate(&vec![0x0800_0000, 0x0000_0000], false);
    ci.console.overwritten.insert(0x1fc0_0008);
    assert!(ci.finish_block(0x1fc0_0004, 2));
    assert_eq!(ci.console.i, 2);
    assert!(ci.console.overwritten.is_empty());
    assert!(ci.blocks.is_empty());
    assert_eq!(ci.ranges_compiled.get(&0x1fc0_0008), Some(&vec![]));
}

#[test]
fn branching_counts_the_delay_slot() {
    assert_eq!(steps_when_branching(2, 5), (4, true));
    assert_eq!(steps_when_branching(4, 5), (5, false));
    assert_eq!(steps_when_branching(0, 1), (1, false));
}

#[test]
fn refresh_countdown_restarts_below_zero() {
    assert_eq!(Console::tick_refresh(10, 3), (7, false));
    assert_eq!(Console::tick_refresh(3, 3), (0, false));
    assert_eq!(Console::tick_refresh(2, 3), (Console::REFRESH_RATE, true));
}
