use rspsx::console::cop0::{Cop0, Cop0Exception};
use rspsx::console::cd::CD;
use rspsx::console::gpu::command::Command;
use rspsx::console::gpu::GPU;
use rspsx::console::Console;
use rspsx::interpreter::{Interpreter, MemAccess, Width};

#[test]
fn addiu_and_lui_write_registers() {
    let mut it = Interpreter::new(false, None);
    // ADDIU r1, r0, -1
    let r = it.step(0x2401_ffff);
    assert_eq!(r.access, MemAccess::NoAccess);
    assert_eq!(it.console.r3000.nth_reg(1), 0xffff_ffff);
    // the first step moves the program counter one word on
    assert_eq!(it.console.r3000.pc(), 0xbfc0_0004);
    // LUI r2, 0x1234
    it.step(0x3c02_1234);
    assert_eq!(it.console.r3000.nth_reg(2), 0x1234_0000);
    // ADDU r3, r1, r2
    it.step(0x0022_1821);
    assert_eq!(it.console.r3000.nth_reg(3), 0x1233_ffff);
    // writes to R0 are lost
    it.step(0x2400_0007);
    assert_eq!(it.console.r3000.nth_reg(0), 0);
}

#[test]
fn load_lands_one_instruction_later() {
    let mut it = Interpreter::new(false, None);
    it.step(0x3c01_8000); // LUI r1, 0x8000
    let r = it.step(0x8c22_0010); // LW r2, 0x10(r1)
    assert_eq!(r.access, MemAccess::Load { address: 0x8000_0010, width: Width::Word, signed: false, target: 2 });
    it.complete_load(2, 0xcafe_f00d);
    assert_eq!(it.console.r3000.nth_reg(2), 0);
    it.step(0x0000_0000); // NOP: the load lands before it runs
    assert_eq!(it.console.r3000.nth_reg(2), 0xcafe_f00d);
}

#[test]
fn store_reports_its_access() {
    let mut it = Interpreter::new(false, None);
    it.step(0x2401_0042); // ADDIU r1, r0, 0x42
    let r = it.step(0xa001_0004); // SB r1, 4(r0)
    assert_eq!(r.access, MemAccess::Store { address: 4, width: Width::Byte, value: 0x42 });
}

#[test]
fn branch_sets_next_pc_after_delay_slot() {
    let mut it = Interpreter::new(false, None);
    // BEQ r0, r0, 2 at 0xbfc00000: target is the delay slot address plus 8
    let r = it.step(0x1000_0002);
    assert_eq!(r.next_pc, Some(0xbfc0_000c));
    // the delay slot runs with the program counter already at the target
    it.step(0x0000_0000);
    assert_eq!(it.console.r3000.pc(), 0xbfc0_000c);
    it.step(0x0000_0000);
    assert_eq!(it.console.r3000.pc(), 0xbfc0_0010);
}

#[test]
fn add_overflow_raises_exception() {
    let mut it = Interpreter::new(false, None);
    it.step(0x3c01_7fff); // LUI r1, 0x7fff
    it.step(0x3421_ffff); // ORI r1, r1, 0xffff
    // ADD traps when the sum leaves 32 bits (as unsigned numbers): not here
    it.step(0x0021_1020);
    assert_eq!(it.console.r3000.nth_reg(2), 0xffff_fffe);
    it.step(0x3c01_ffff); // LUI r1, 0xffff
    it.step(0x0021_1820); // ADD r3, r1, r1 overflows
    assert_eq!(it.console.r3000.nth_reg(3), 0);
    assert_eq!((it.console.cop0.nth_data_reg(13) >> 2) & 0x1f, 0x0c);
    assert_eq!(it.console.r3000.pc(), 0x8000_0080);
}

#[test]
fn multiply_and_divide_fill_hi_lo() {
    let mut it = Interpreter::new(false, None);
    it.step(0x2401_fffe); // ADDIU r1, r0, -2
    it.step(0x2402_0003); // ADDIU r2, r0, 3
    it.step(0x0022_0018); // MULT r1, r2
    assert_eq!(it.console.r3000.hi(), 0xffff_ffff);
    assert_eq!(it.console.r3000.lo(), 0xffff_fffa);
    it.step(0x0022_001a); // DIV r1, r2: -2 / 3 = 0 rem -2
    assert_eq!(it.console.r3000.lo(), 0);
    assert_eq!(it.console.r3000.hi(), 0xffff_fffe);
}

#[test]
fn cop0_exception_and_rfe() {
    let mut cop0 = Cop0::new();
    *cop0.nth_data_reg_mut(12).unwrap() = 0x0000_0001;
    let vector = cop0.generate_exception(Cop0Exception::Syscall, 0x1234);
    assert_eq!(vector, 0x8000_0080);
    assert_eq!(cop0.nth_data_reg(14), 0x1234);
    assert_eq!(cop0.nth_data_reg(12) & 0x5, 0x4);
    assert_eq!(cop0.execute_command(0x10), None);
    assert_eq!(cop0.nth_data_reg(12) & 0x1, 0x1);
    assert!(!cop0.cache_isolated());
    assert_eq!(cop0.bcnf(0), None);
}

#[test]
fn physical_addresses_strip_segments() {
    assert_eq!(Console::physical(0xbfc0_0000), 0x1fc0_0000);
    assert_eq!(Console::physical(0x8001_0000), 0x0001_0000);
    assert_eq!(Console::physical(0x0001_0000), 0x0001_0000);
    assert_eq!(Console::physical(0xfffe_0130), 0xfffe_0130);
}

#[test]
fn cd_answers_bios_date_query() {
    let mut cd = CD::new(None);
    assert_eq!(cd.read_response(), 0);
    cd.send_parameter(0x20);
    cd.send_command(0x19);
    cd.exec_command();
    for _ in 0..4 {
        assert_eq!(cd.read_response(), 0);
    }
}

#[test]
fn gp0_queues_complete_commands() {
    let mut gpu = GPU::new(false);
    // a monochrome quad takes five words
    gpu.write_to_gp0(0x2800_00ff);
    for _ in 0..4 {
        gpu.write_to_gp0(0x0010_0010);
    }
    let drawn = gpu.exec_next_gp0_command();
    assert!(drawn.is_some());
    assert!(gpu.exec_next_gp0_command().is_none());
    assert_eq!(gpu.gpuread(), 0);
    assert_eq!(gpu.gpustat() & 0x1c00_0000, 0x1c00_0000);
}

#[test]
fn gpu_command_words() {
    let mut c = Command::new(0x2800_00ff);
    assert_eq!(c.id(), 0x28);
    assert!(!c.completed());
    for i in 0..4 {
        c.append_parameters(0x0001_0002 * (i + 1));
    }
    assert!(c.completed());
    assert_eq!(c.num_words(), 5);
    assert_eq!(c.get_xpos_consecutive(), vec![2, 4, 6, 8]);
    assert_eq!(c.get_ypos_consecutive(), vec![1, 2, 3, 4]);
    // the red channel, once per vertex
    assert_eq!(c.get_monochrome(), vec![0xff, 0xff, 0xff, 0xff]);
}
