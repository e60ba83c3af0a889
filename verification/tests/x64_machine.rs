//! Runs assembled code on a small interpreter of the x86-64 instructions that the
//! assembler emits, and checks what the code leaves in RAX.
use std::collections::HashMap;

use rspsx::jit::x64_jit::macro_assembler::MacroAssembler;
use rspsx::jit::x64_jit::macro_compiler::{create_pointers, destroy_pointers};
use rspsx::jit::x64_jit::register_allocator::{X64_RAX, X64_RCX, X64_RSP};

const CODE_BASE: u64 = 0x0040_0000;
const DATA_BASE: u64 = 0x0060_0000;
const STACK_TOP: u64 = 0x7fff_0000;
const STACK_SIZE: u64 = 0x1000;
/// Where the code returns to when it is done.
const RETURN_ADDRESS: u64 = 0x0bad_c0de;
/// A routine of the host that takes no argument and returns 1.
const NO_ARG: u64 = 0x0070_0000;
const STEP_LIMIT: usize = 100_000;

#[derive(Clone, Copy)]
enum Operand {
    Reg(usize),
    Mem(u64),
}

struct Machine {
    regs: [u64; 16],
    mem: HashMap<u64, u8>,
    rip: u64,
    carry: bool,
    hosts: HashMap<u64, u64>,
}

impl Machine {
    fn new(code: &[u8]) -> Machine {
        let mut m = Machine {
            regs: [0; 16],
            mem: HashMap::new(),
            rip: CODE_BASE,
            carry: false,
            hosts: HashMap::new(),
        };
        for (i, r) in m.regs.iter_mut().enumerate() {
            *r = 0x0101_0101_0101_0101u64.wrapping_mul(i as u64 + 1);
        }
        m.map(CODE_BASE, code);
        m.map(STACK_TOP - STACK_SIZE, &vec![0u8; STACK_SIZE as usize]);
        m.hosts.insert(NO_ARG, 1);
        m
    }

    fn map(&mut self, base: u64, bytes: &[u8]) {
        for (i, &b) in bytes.iter().enumerate() {
            self.mem.insert(base + i as u64, b);
        }
    }

    fn load(&self, addr: u64, width: u64) -> u64 {
        let mut v = 0u64;
        for i in (0..width).rev() {
            let a = addr.wrapping_add(i);
            let b = match self.mem.get(&a) {
                Some(&b) => b,
                None => panic!("read of unmapped address {:#x} at {:#x}", a, self.rip),
            };
            v = (v << 8) | b as u64;
        }
        v
    }

    fn store(&mut self, addr: u64, width: u64, value: u64) {
        for i in 0..width {
            let a = addr.wrapping_add(i);
            match self.mem.get_mut(&a) {
                Some(b) => *b = (value >> (8 * i)) as u8,
                None => panic!("write to unmapped address {:#x} at {:#x}", a, self.rip),
            }
        }
    }

    fn fetch(&mut self, width: u64) -> u64 {
        let v = self.load(self.rip, width);
        self.rip += width;
        v
    }

    fn fetch_i8(&mut self) -> u64 {
        self.fetch(1) as u8 as i8 as i64 as u64
    }

    fn fetch_i32(&mut self) -> u64 {
        self.fetch(4) as u32 as i32 as i64 as u64
    }

    fn push(&mut self, width: u64, value: u64) {
        self.regs[X64_RSP as usize] = self.regs[X64_RSP as usize].wrapping_sub(width);
        self.store(self.regs[X64_RSP as usize], width, value);
    }

    fn pop(&mut self, width: u64) -> u64 {
        let v = self.load(self.regs[X64_RSP as usize], width);
        self.regs[X64_RSP as usize] = self.regs[X64_RSP as usize].wrapping_add(width);
        v
    }

    fn get(&self, op: Operand, width: u64) -> u64 {
        match op {
            Operand::Reg(r) => self.regs[r] & mask(width),
            Operand::Mem(a) => self.load(a, width),
        }
    }

    /// Writes an operand; a 32-bit register write clears the upper half, a 16-bit
    /// one keeps the rest of the register.
    fn set(&mut self, op: Operand, width: u64, value: u64) {
        match op {
            Operand::Reg(r) => {
                self.regs[r] = match width {
                    8 => value,
                    4 => value & 0xffff_ffff,
                    _ => (self.regs[r] & !0xffff) | (value & 0xffff),
                }
            }
            Operand::Mem(a) => self.store(a, width, value),
        }
    }

    /// Decodes a ModRM byte (and its SIB byte and displacement) into the register
    /// field and the r/m operand.
    fn modrm(&mut self, rex: u8) -> (usize, Operand) {
        let b = self.fetch(1) as u8;
        let md = b >> 6;
        let reg = (((b >> 3) & 7) | ((rex & 4) << 1)) as usize;
        let rm = b & 7;
        if md == 3 {
            return (reg, Operand::Reg((rm | ((rex & 1) << 3)) as usize));
        }
        let base = if rm == 4 {
            let sib = self.fetch(1) as u8;
            assert_eq!((sib >> 3) & 7 | ((rex & 2) << 2), 4, "indexed addressing is not interpreted");
            assert!(!(sib & 7 == 5 && md == 0), "absolute addressing is not interpreted");
            self.regs[((sib & 7) | ((rex & 1) << 3)) as usize]
        } else {
            assert!(!(rm == 5 && md == 0), "RIP-relative addressing is not interpreted");
            self.regs[(rm | ((rex & 1) << 3)) as usize]
        };
        let disp = match md {
            0 => 0,
            1 => self.fetch_i8(),
            _ => self.fetch_i32(),
        };
        (reg, Operand::Mem(base.wrapping_add(disp)))
    }

    /// Group 1 operation `ext` (ADD, OR, AND, SUB, XOR) of an immediate into an operand.
    fn alu(&mut self, ext: usize, op: Operand, width: u64, imm: u64) {
        let a = self.get(op, width);
        let v = match ext & 7 {
            0 => a.wrapping_add(imm),
            1 => a | imm,
            4 => a & imm,
            5 => a.wrapping_sub(imm),
            6 => a ^ imm,
            e => panic!("group 1 operation /{} is not interpreted", e),
        };
        self.set(op, width, v & mask(width));
    }

    fn call(&mut self, target: u64) {
        match self.hosts.get(&target) {
            Some(&v) => self.regs[X64_RAX as usize] = v,
            None => {
                let back = self.rip;
                self.push(8, back);
                self.rip = target;
            }
        }
    }

    fn jump_if(&mut self, taken: bool, rel: u64) {
        if taken {
            self.rip = self.rip.wrapping_add(rel);
        }
    }

    fn step(&mut self) {
        let start = self.rip;
        let mut op = self.fetch(1) as u8;
        let mut short = false;
        let mut rex = 0u8;
        if op == 0x66 {
            short = true;
            op = self.fetch(1) as u8;
        }
        if op & 0xf0 == 0x40 {
            rex = op;
            op = self.fetch(1) as u8;
        }
        let width = if rex & 8 != 0 { 8 } else if short { 2 } else { 4 };
        let stack_width = if short { 2 } else { 8 };
        let low = ((op & 7) | ((rex & 1) << 3)) as usize;
        match op {
            0x50..=0x57 => {
                let v = self.regs[low];
                self.push(stack_width, v);
            }
            0x58..=0x5f => {
                let v = self.pop(stack_width);
                self.set(Operand::Reg(low), stack_width, v);
            }
            0x68 => {
                let v = if short { self.fetch(2) } else { self.fetch_i32() };
                self.push(stack_width, v);
            }
            0x9c => {
                let flags = 2 | self.carry as u64;
                self.push(8, flags);
            }
            0x9d => {
                let flags = self.pop(8);
                self.carry = flags & 1 != 0;
            }
            0xb8..=0xbf => {
                let v = self.fetch(width);
                self.set(Operand::Reg(low), width, v);
            }
            0x90..=0x97 => {
                if low != 0 {
                    let a = self.get(Operand::Reg(0), width);
                    let b = self.get(Operand::Reg(low), width);
                    self.set(Operand::Reg(0), width, b);
                    self.set(Operand::Reg(low), width, a);
                }
            }
            0x01 | 0x09 => {
                let (reg, rm) = self.modrm(rex);
                let imm = self.get(Operand::Reg(reg), width);
                self.alu(if op == 0x01 { 0 } else { 1 }, rm, width, imm);
            }
            0x89 => {
                let (reg, rm) = self.modrm(rex);
                let v = self.get(Operand::Reg(reg), width);
                self.set(rm, width, v);
            }
            0x8b => {
                let (reg, rm) = self.modrm(rex);
                let v = self.get(rm, width);
                self.set(Operand::Reg(reg), width, v);
            }
            0x87 => {
                let (reg, rm) = self.modrm(rex);
                let a = self.get(rm, width);
                let b = self.get(Operand::Reg(reg), width);
                self.set(rm, width, b);
                self.set(Operand::Reg(reg), width, a);
            }
            0x05 | 0x0d | 0x25 | 0x35 => {
                let imm = if short { self.fetch(2) } else { self.fetch_i32() } & mask(width);
                let ext = match op {
                    0x05 => 0,
                    0x0d => 1,
                    0x25 => 4,
                    _ => 6,
                };
                self.alu(ext, Operand::Reg(0), width, imm);
            }
            0x81 | 0x83 => {
                let (ext, rm) = self.modrm(rex);
                let imm = if op == 0x83 {
                    self.fetch_i8()
                } else if short {
                    self.fetch(2)
                } else {
                    self.fetch_i32()
                } & mask(width);
                self.alu(ext, rm, width, imm);
            }
            0x8f => {
                let (ext, rm) = self.modrm(rex);
                assert_eq!(ext & 7, 0);
                let v = self.pop(stack_width);
                self.set(rm, stack_width, v);
            }
            0xff => {
                let (ext, rm) = self.modrm(rex);
                match ext & 7 {
                    2 => {
                        let target = self.get(rm, 8);
                        self.call(target);
                    }
                    6 => {
                        let v = self.get(rm, stack_width);
                        self.push(stack_width, v);
                    }
                    e => panic!("0xff /{} is not interpreted", e),
                }
            }
            0xe8 => {
                assert!(!short, "16-bit calls are not interpreted");
                let rel = self.fetch_i32();
                let target = self.rip.wrapping_add(rel);
                self.call(target);
            }
            0xe9 => {
                let rel = self.fetch_i32();
                self.jump_if(true, rel);
            }
            0xeb => {
                let rel = self.fetch_i8();
                self.jump_if(true, rel);
            }
            0x72 | 0x73 => {
                let rel = self.fetch_i8();
                let taken = self.carry == (op == 0x72);
                self.jump_if(taken, rel);
            }
            0x0f => {
                let op2 = self.fetch(1) as u8;
                match op2 {
                    0x82 | 0x83 => {
                        let rel = self.fetch_i32();
                        let taken = self.carry == (op2 == 0x82);
                        self.jump_if(taken, rel);
                    }
                    0xba => {
                        let (ext, rm) = self.modrm(rex);
                        assert_eq!(ext & 7, 4, "only BT is interpreted");
                        let bit = self.fetch(1) % (width * 8);
                        self.carry = (self.get(rm, width) >> bit) & 1 != 0;
                    }
                    _ => panic!("opcode 0x0f {:#x} at {:#x} is not interpreted", op2, start),
                }
            }
            0xc3 => {
                self.rip = self.pop(8);
            }
            _ => panic!("opcode {:#x} at {:#x} is not interpreted", op, start),
        }
    }

    /// Calls the code the way `callq *%rbp` would and returns RAX once it returns.
    fn call_code(&mut self) -> u64 {
        self.regs[X64_RSP as usize] = STACK_TOP;
        self.regs[5] = CODE_BASE;
        self.push(8, RETURN_ADDRESS);
        self.rip = CODE_BASE;
        for _ in 0..STEP_LIMIT {
            if self.rip == RETURN_ADDRESS {
                assert_eq!(self.regs[X64_RSP as usize], STACK_TOP, "the stack is left unbalanced");
                return self.regs[X64_RAX as usize];
            }
            self.step();
        }
        panic!("the code did not return");
    }
}

fn mask(width: u64) -> u64 {
    if width == 8 {
        u64::MAX
    } else {
        (1u64 << (8 * width)) - 1
    }
}

/// Finishes the code and runs it.
fn run(masm: &mut MacroAssembler) -> u64 {
    masm.assemble();
    Machine::new(masm.bytes()).call_code()
}

/// Finishes the code and runs it with `data` stored at `DATA_BASE`.
fn run_with_data(masm: &mut MacroAssembler, data: &[u8]) -> u64 {
    masm.assemble();
    let mut m = Machine::new(masm.bytes());
    m.map(DATA_BASE, data);
    m.call_code()
}

fn all_regs() -> Vec<u32> {
    (0..=15).collect()
}

#[test]
fn addq_rr() {
    for src in MacroAssembler::free_regs() {
        for dest in MacroAssembler::free_regs() {
            let mut masm = MacroAssembler::new();
            let x: u64 = 0x1238_4289_fdf0_0123;
            let y: u64 = 0x1434_5892_ffbc_bcc0;
            masm.emit_movq_ir(x, src);
            if src != dest {
                masm.emit_movq_ir(y, dest);
            }
            masm.emit_addq_rr(src, dest);
            masm.emit_movq_rr(dest, 0);
            let out = run(&mut masm);
            if src != dest {
                assert_eq!(out, x + y);
            } else {
                assert_eq!(out, x + x);
            }
        }
    }
}

#[test]
fn addl_rr() {
    for src in MacroAssembler::free_regs() {
        for dest in MacroAssembler::free_regs() {
            let mut masm = MacroAssembler::new();
            let x: u32 = 0x1238_4289;
            let y: u32 = 0x1434_5892;
            masm.emit_movl_ir(x, src);
            if src != dest {
                masm.emit_movl_ir(y, dest);
            }
            masm.emit_addl_rr(src, dest);
            masm.emit_movl_rr(dest, 0);
            let out = run(&mut masm) as u32;
            if src != dest {
                assert_eq!(out, x + y);
            } else {
                assert_eq!(out, x + x);
            }
        }
    }
}

#[test]
fn addq_imm8_r() {
    for &imm8 in &[-128i32, 127] {
        for dest in MacroAssembler::free_regs() {
            let mut masm = MacroAssembler::new();
            let x: u64 = 0x1238_4289_2378_2395;
            masm.emit_movq_ir(x, dest);
            masm.emit_addq_ir(imm8, dest);
            masm.emit_movq_rr(dest, 0);
            let out = run(&mut masm);
            assert_eq!(out, x.wrapping_add(imm8 as u64));
        }
    }
}

#[test]
fn addq_imm32_r() {
    for &imm32 in &[-0x7cf0_3295i32, -0x7cf0_3295] {
        for dest in MacroAssembler::free_regs() {
            let mut masm = MacroAssembler::new();
            let x: u64 = 0x1238_4289_2378_2390;
            masm.emit_movq_ir(x, dest);
            masm.emit_addq_ir(imm32, dest);
            masm.emit_movq_rr(dest, 0);
            let out = run(&mut masm);
            assert_eq!(out, x.wrapping_add(imm32 as u64));
        }
    }
}

#[test]
fn addl_imm8_r() {
    for &imm8 in &[-128i32, 127] {
        for dest in MacroAssembler::free_regs() {
            let mut masm = MacroAssembler::new();
            let x: u32 = 0x1238_4289;
            masm.emit_movl_ir(x, dest);
            masm.emit_addl_ir(imm8, dest);
            masm.emit_movl_rr(dest, 0);
            let out = run(&mut masm) as u32;
            assert_eq!(out, x.wrapping_add(imm8 as u32));
        }
    }
}

#[test]
fn addl_imm32_r() {
    for &imm32 in &[-0x7cf0_3295i32, -0x7cf0_3295] {
        for dest in MacroAssembler::free_regs() {
            let mut masm = MacroAssembler::new();
            let x: u32 = 0x1238_4289;
            masm.emit_movl_ir(x, dest);
            masm.emit_addl_ir(imm32, dest);
            masm.emit_movl_rr(dest, 0);
            let out = run(&mut masm) as u32;
            assert_eq!(out, x.wrapping_add(imm32 as u32));
        }
    }
}

#[test]
fn callq_r64_no_args() {
    for reg in MacroAssembler::free_regs() {
        let mut masm = MacroAssembler::new();
        masm.emit_movq_ir(NO_ARG, reg);
        for i in MacroAssembler::caller_saved_regs() {
            masm.emit_push_r64(i);
        }
        masm.emit_callq_r64(reg);
        // the return value goes to r15 while the caller-saved registers come back
        masm.emit_movq_rr(0, 15);
        for &i in MacroAssembler::caller_saved_regs().iter().rev() {
            masm.emit_pop_r64(i);
        }
        masm.emit_movq_rr(15, 0);
        let out = run(&mut masm) as u32;
        assert_eq!(out, 1);
    }
}

#[test]
fn callq_m64_no_args() {
    for reg in MacroAssembler::free_regs() {
        let mut masm = MacroAssembler::new();
        for i in MacroAssembler::caller_saved_regs() {
            masm.emit_push_r64(i);
        }
        masm.emit_addq_ir(-8, X64_RSP);
        masm.emit_push_imm64(NO_ARG);
        masm.emit_movq_rr(X64_RSP, reg);
        masm.emit_callq_m64(reg);
        masm.emit_movq_rr(0, 15);
        masm.emit_addq_ir(16, X64_RSP);
        for &i in MacroAssembler::caller_saved_regs().iter().rev() {
            masm.emit_pop_r64(i);
        }
        masm.emit_movq_rr(15, 0);
        let out = run(&mut masm);
        assert_eq!(out, 1);
    }
}

#[test]
fn callq_m64_offset_no_args() {
    for reg in MacroAssembler::free_regs() {
        let mut masm = MacroAssembler::new();
        masm.emit_push_imm64(NO_ARG);
        for i in MacroAssembler::caller_saved_regs() {
            masm.emit_push_r64(i);
        }
        masm.emit_addq_ir(-8, X64_RSP);
        masm.emit_movq_rr(X64_RSP, reg);
        masm.emit_callq_m64_offset(reg, MacroAssembler::caller_saved_regs().len() as i32 * 8);
        masm.emit_addq_ir(8, X64_RSP);
        masm.emit_movq_rr(0, 15);
        for &i in MacroAssembler::caller_saved_regs().iter().rev() {
            masm.emit_pop_r64(i);
        }
        masm.emit_movq_rr(15, 0);
        masm.emit_addq_ir(8, X64_RSP);
        let out = run(&mut masm);
        assert_eq!(out, 1);
    }
}

#[test]
fn call_label() {
    let mut masm = MacroAssembler::new();
    let label = masm.create_undefined_label();
    let end = masm.create_undefined_label();
    masm.emit_movq_ir(0, 0);
    masm.emit_call_label(label);
    masm.emit_jmp_label(end);
    masm.define_label(label);
    masm.emit_movq_ir(1, 0);
    masm.emit_ret();
    masm.define_label(end);
    let out = run(&mut masm);
    assert_eq!(out, 1);
}

#[test]
fn jmp_rel8() {
    let mut masm = MacroAssembler::new();
    masm.emit_movl_ir(0x1235_8732, X64_RAX);
    masm.emit_jmp_rel8(5);
    masm.emit_movl_ir(0, X64_RAX);
    let out = run(&mut masm) as u32;
    assert_eq!(out, 0x1235_8732);
}

#[test]
fn jmp_label() {
    for i in 0..=1 {
        let mut masm = MacroAssembler::new();
        let dest = masm.create_undefined_label();
        masm.emit_movl_ir(0x1235_8732, X64_RAX);
        masm.emit_jmp_label(dest);
        if i == 0 {
            masm.emit_movl_ir(0, X64_RAX);
            masm.define_label(dest);
        } else {
            masm.define_label(dest);
            masm.emit_movl_ir(0, X64_RAX);
        }
        let out = run(&mut masm) as u32;
        if i == 0 {
            assert_eq!(out, 0x1235_8732);
        } else {
            assert_eq!(out, 0);
        }
    }
}

#[test]
fn jcc_rel8() {
    for test_value in 0..=1u32 {
        for i in 0..=1u32 {
            let mut masm = MacroAssembler::new();
            masm.emit_movl_ir(0x1235_8732, X64_RAX);
            masm.emit_movl_ir(test_value, X64_RCX);
            masm.emit_btl_ir(0, X64_RCX);
            if i == 0 {
                masm.emit_jae_rel8(5);
            } else {
                masm.emit_jb_rel8(5);
            }
            masm.emit_movl_ir(0, X64_RAX);
            let out = run(&mut masm) as u32;
            if i == test_value {
                assert_eq!(out, 0x1235_8732);
            } else {
                assert_eq!(out, 0);
            }
        }
    }
}

#[test]
fn jcc_label() {
    for test_value in 0..=1u32 {
        for i in 0..=1u32 {
            let mut masm = MacroAssembler::new();
            let label = masm.create_undefined_label();
            masm.emit_movl_ir(0x1235_8732, X64_RAX);
            masm.emit_movl_ir(test_value, X64_RCX);
            masm.emit_btl_ir(0, X64_RCX);
            if i == 0 {
                masm.emit_jae_label(label);
            } else {
                masm.emit_jb_label(label);
            }
            masm.emit_movl_ir(0, X64_RAX);
            masm.define_label(label);
            let out = run(&mut masm) as u32;
            if i == test_value {
                assert_eq!(out, 0x1235_8732);
            } else {
                assert_eq!(out, 0);
            }
        }
    }
}

#[test]
fn movl_rr() {
    for src in MacroAssembler::free_regs() {
        for dest in MacroAssembler::free_regs() {
            let mut masm = MacroAssembler::new();
            masm.emit_push_imm32(0xbfc0_0101);
            masm.emit_pop_r64(src);
            masm.emit_movl_rr(src, dest);
            masm.emit_push_r64(dest);
            masm.emit_pop_r64(0);
            let out = run(&mut masm) as u32;
            assert_eq!(out, 0xbfc0_0101);
        }
    }
}

#[test]
fn movl_ir() {
    for reg in MacroAssembler::free_regs() {
        let mut masm = MacroAssembler::new();
        masm.emit_movl_ir(0xadcb_1324, reg);
        masm.emit_push_r64(reg);
        masm.emit_pop_r64(0);
        let out = run(&mut masm) as u32;
        assert_eq!(out, 0xadcb_1324);
    }
}

#[test]
fn movq() {
    for reg in MacroAssembler::free_regs() {
        let mut masm = MacroAssembler::new();
        masm.emit_movq_ir(0xadcb_1324_ff00_dcda, reg);
        masm.emit_movq_rr(reg, 0);
        let out = run(&mut masm);
        assert_eq!(out, 0xadcb_1324_ff00_dcda);
    }
}

#[test]
fn movl_mr() {
    // every register as the pointer, RSP included, to reach (%rsp) too
    for ptr in all_regs() {
        for dest in MacroAssembler::free_regs() {
            let mut masm = MacroAssembler::new();
            masm.emit_push_imm32(0xabcd_1235);
            masm.emit_movq_rr(X64_RSP, ptr);
            masm.emit_movl_mr(ptr, dest);
            masm.emit_pop_r64(1);
            masm.emit_movl_rr(dest, 0);
            let out = run(&mut masm) as u32;
            assert_eq!(out, 0xabcd_1235);
        }
    }
}

#[test]
fn movl_rm() {
    for ptr in all_regs() {
        for src in MacroAssembler::free_regs() {
            let mut masm = MacroAssembler::new();
            masm.emit_movl_ir(0x5324_bcda, src);
            masm.emit_push_r64(1);
            masm.emit_movq_rr(X64_RSP, ptr);
            masm.emit_movl_rm(src, ptr);
            masm.emit_pop_r64(0);
            let out = run(&mut masm) as u32;
            // when the pointer is the source, what is stored is the stack address
            if ptr != src {
                assert_eq!(out, 0x5324_bcda);
            }
        }
    }
}

#[test]
fn movl_rm_offset() {
    for ptr in all_regs() {
        for src in MacroAssembler::free_regs() {
            let mut masm = MacroAssembler::new();
            masm.emit_movl_ir(0xbdef_2398, src);
            masm.emit_push_r64(1);
            masm.emit_push_r64(1);
            masm.emit_push_r64(1);
            masm.emit_movq_rr(X64_RSP, ptr);
            masm.emit_movl_rm_offset(src, ptr, 16);
            masm.emit_pop_r64(1);
            masm.emit_pop_r64(1);
            masm.emit_pop_r64(0);
            let out = run(&mut masm) as u32;
            if ptr != src {
                assert_eq!(out, 0xbdef_2398);
            }
        }
    }
}

#[test]
fn stack_stack_64bit() {
    for reg in MacroAssembler::free_regs() {
        let mut masm = MacroAssembler::new();
        masm.emit_push_imm32(0xdead_beef);
        masm.emit_pop_r64(reg);
        masm.emit_push_r64(reg);
        masm.emit_pop_r64(0);
        let out = run(&mut masm) as u32;
        assert_eq!(out as i64 as u64, 0xdead_beef);
    }
    for reg in MacroAssembler::free_regs() {
        let mut masm = MacroAssembler::new();
        let mut stack_offset = 0;
        stack_offset += masm.emit_pushl_i(0xdead_beef);
        stack_offset += masm.emit_popq_r(reg);
        stack_offset += masm.emit_pushq_r(reg);
        stack_offset += masm.emit_popq_r(0);
        stack_offset += masm.realign_stack(stack_offset);
        assert_eq!(stack_offset, 0);
        let out = run(&mut masm) as u32;
        assert_eq!(out as i64 as u64, 0xdead_beef);
    }
}

#[test]
fn stack_stack_16bit() {
    for reg in MacroAssembler::free_regs() {
        let mut masm = MacroAssembler::new();
        masm.emit_push_imm16(0xbeef);
        masm.emit_pop_r16(reg);
        masm.emit_push_r16(reg);
        masm.emit_pop_r16(0);
        let out = run(&mut masm) as u16;
        assert_eq!(out, 0xbeef);
    }
    for reg in MacroAssembler::free_regs() {
        let mut masm = MacroAssembler::new();
        let mut stack_offset = 0;
        stack_offset += masm.emit_pushw_i(0xbeef);
        stack_offset += masm.emit_popw_r(reg);
        stack_offset += masm.emit_pushw_r(reg);
        stack_offset += masm.emit_popw_r(0);
        stack_offset += masm.realign_stack(stack_offset);
        assert_eq!(stack_offset, 0);
        let out = run(&mut masm) as u16;
        assert_eq!(out, 0xbeef);
    }
}

#[test]
fn stack_stack_memory_16bit() {
    let read_me: u16 = 0xf0f0;
    for reg in MacroAssembler::free_regs() {
        let mut masm = MacroAssembler::new();
        masm.emit_movq_ir(DATA_BASE, reg);
        masm.emit_push_m16(reg);
        masm.emit_pop_r16(0);
        let out = run_with_data(&mut masm, &read_me.to_le_bytes()) as u16;
        assert_eq!(out, read_me);
    }
    for reg in MacroAssembler::free_regs() {
        let mut masm = MacroAssembler::new();
        masm.emit_movq_ir(DATA_BASE, reg);
        let mut stack_offset = 0;
        stack_offset += masm.emit_pushw_m(reg);
        stack_offset += masm.emit_popw_r(0);
        stack_offset += masm.realign_stack(stack_offset);
        assert_eq!(stack_offset, 0);
        let out = run_with_data(&mut masm, &read_me.to_le_bytes()) as u16;
        assert_eq!(out, read_me);
    }
}

#[test]
fn stack_stack_memory_32bit() {
    let read_me: u32 = 0xff00_f0f0;
    // a push of memory reads eight bytes: the word and what follows it
    let mut data = read_me.to_le_bytes().to_vec();
    data.extend_from_slice(&[0; 4]);
    for reg in MacroAssembler::free_regs() {
        let mut masm = MacroAssembler::new();
        masm.emit_movq_ir(DATA_BASE, reg);
        masm.emit_push_m32(reg);
        masm.emit_pop_r64(0);
        let out = run_with_data(&mut masm, &data) as u32;
        assert_eq!(out, read_me);
    }
    for reg in MacroAssembler::free_regs() {
        let mut masm = MacroAssembler::new();
        masm.emit_movq_ir(DATA_BASE, reg);
        let mut stack_offset = 0;
        stack_offset += masm.emit_pushl_m(reg);
        stack_offset += masm.emit_popq_r(0);
        stack_offset += masm.realign_stack(stack_offset);
        assert_eq!(stack_offset, 0);
        let out = run_with_data(&mut masm, &data) as u32;
        assert_eq!(out, read_me);
    }
}

#[test]
fn xchgq_rr() {
    for r1 in MacroAssembler::free_regs() {
        for r2 in MacroAssembler::free_regs() {
            let mut masm = MacroAssembler::new();
            let x: u64 = 0xabec_230f_0f03_4452;
            masm.emit_movq_ir(x, r1);
            masm.emit_xchgq_rr(r1, r2);
            masm.emit_movq_rr(r2, 0);
            let out = run(&mut masm);
            assert_eq!(x, out);
        }
    }
}

#[test]
fn xchgl_rm() {
    for reg in MacroAssembler::free_regs() {
        for ptr in all_regs() {
            let mut masm = MacroAssembler::new();
            let x: u32 = 0x0703_b452;
            masm.emit_movl_ir(x, 0);
            masm.emit_push_r64(0);
            masm.emit_movq_rr(X64_RSP, ptr);
            masm.emit_xchgl_rm(reg, ptr);
            masm.emit_movl_rr(reg, 0);
            masm.emit_addq_ir(8, X64_RSP);
            let out = run(&mut masm) as u32;
            assert_eq!(x, out);
        }
    }
}

#[test]
fn xchgl_rm_offset() {
    for reg in MacroAssembler::free_regs() {
        for ptr in all_regs() {
            let mut masm = MacroAssembler::new();
            let x: u32 = 0x0703_b452;
            masm.emit_movl_ir(x, 0);
            masm.emit_push_r64(0);
            masm.emit_push_r64(1);
            masm.emit_movq_rr(X64_RSP, ptr);
            masm.emit_xchgl_rm_offset(reg, ptr, 8);
            masm.emit_movl_rr(reg, 0);
            masm.emit_addq_ir(16, X64_RSP);
            let out = run(&mut masm) as u32;
            assert_eq!(x, out);
        }
    }
}

#[test]
fn flags_survive_a_push_and_pop() {
    for bit in 0..=1u32 {
        let mut masm = MacroAssembler::new();
        masm.emit_movl_ir(bit, X64_RCX);
        masm.emit_btl_ir(0, X64_RCX);
        let mut stack_offset = masm.emit_pushfq();
        masm.emit_movl_ir(0, X64_RCX);
        masm.emit_btl_ir(0, X64_RCX);
        stack_offset += masm.emit_popfq();
        assert_eq!(stack_offset, 0);
        masm.emit_movl_ir(7, X64_RAX);
        masm.emit_jae_rel8(5);
        masm.emit_movl_ir(9, X64_RAX);
        let out = run(&mut masm);
        assert_eq!(out, if bit == 1 { 9 } else { 7 });
    }
}

#[test]
fn pointers_are_pushed_in_order_and_released() {
    let mut masm = MacroAssembler::new();
    let pointers = vec![0x1111_2222_3333_4444u64, 0x5555_6666_7777_8888, 0x0000_0000_0040_1000];
    let pushed = create_pointers(&mut masm, &pointers);
    assert_eq!(pushed.0, 24);
    // the second pointer sits one slot above the top of the stack
    masm.emit_movq_rr(X64_RSP, X64_RCX);
    masm.emit_addq_ir(8, X64_RCX);
    masm.emit_movl_mr(X64_RCX, X64_RAX);
    let released = destroy_pointers(&mut masm, pushed.0);
    assert_eq!(released.0, -24);
    let out = run(&mut masm) as u32;
    assert_eq!(out, 0x7777_8888);
}

#[test]
fn call_with_an_argument_returns_the_result() {
    let mut masm = MacroAssembler::new();
    masm.emit_call(NO_ARG, DATA_BASE);
    let out = run(&mut masm);
    assert_eq!(out, 1);
}

#[test]
fn call_through_rax_returns_the_result() {
    let mut masm = MacroAssembler::new();
    masm.test(NO_ARG);
    let out = run(&mut masm);
    assert_eq!(out, 1);
}
