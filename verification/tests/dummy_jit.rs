use rspsx::caching_interpreter::insn::Insn as BlockInsn;
use rspsx::caching_interpreter::optimize::Compiled;
use rspsx::caching_interpreter::stub::Stub as EmptyStub;
use rspsx::caching_interpreter::CachingInterpreter as EarlyCachingInterpreter;
use rspsx::console::Console;
use rspsx::dummy_jit::insn_ir::Kind;
use rspsx::dummy_jit::Dummy_JIT;
use rspsx::interpreter::Width;
use rspsx::jit::caching_interpreter::stub::Stub as Operation;

#[test]
fn tag_insn_classifies_instructions() {
    let jit = Dummy_JIT::new(false, None);
    // ADDU r3, r1, r2
    let t = jit.tag_insn(0x0022_1821).unwrap().unwrap();
    assert_eq!(t.kind(), Kind::Register);
    assert_eq!(t.inputs_len(), 2);
    assert_eq!(t.input_i(0), 1);
    assert_eq!(t.input_i(1), 2);
    assert_eq!(t.output(), Some(3));
    // LUI r4, 1
    let t = jit.tag_insn(0x3c04_0001).unwrap().unwrap();
    assert_eq!(t.kind(), Kind::Immediate);
    assert_eq!(t.inputs_len(), 0);
    assert_eq!(t.output(), Some(4));
    // MFHI is not tagged, J ends the stub
    assert!(jit.tag_insn(0x0000_2010).unwrap().is_none());
    assert!(jit.tag_insn(0x0800_0000).is_none());
    // LW is not tagged
    assert!(jit.tag_insn(0x8c22_0000).unwrap().is_none());
}

#[test]
fn dummy_fold_constants() {
    let jit = Dummy_JIT::new(false, None);
    let ops: Vec<u32> = vec![0x3c01_0001, 0x3421_0002, 0x0021_1021];
    let pairs: Vec<(u32, _)> = ops.iter().map(|&op| (op, jit.tag_insn(op).unwrap().unwrap())).collect();
    let folded = jit.compile_optimized_stub(&pairs);
    assert_eq!(
        folded,
        vec![
            Operation::Opcode(0x3c01_0001),
            Operation::LoadConstant { register: 1, value: 0x0001_0002 },
            Operation::Opcode(0x0021_1021),
        ]
    );
    let as_is = jit.compile_stub_as_is(&pairs);
    assert_eq!(as_is, vec![Operation::Opcode(0x3c01_0001), Operation::Opcode(0x3421_0002), Operation::Opcode(0x0021_1021)]);
}

#[test]
fn dummy_fold_forgets_overwritten_constant() {
    let jit = Dummy_JIT::new(false, None);
    // LUI r1, 1 ; ADDU r1, r2, r3 ; ORI r1, r1, 2
    let ops: Vec<u32> = vec![0x3c01_0001, 0x0043_0821, 0x3421_0002];
    let pairs: Vec<(u32, _)> = ops.iter().map(|&op| (op, jit.tag_insn(op).unwrap().unwrap())).collect();
    let folded = jit.compile_optimized_stub(&pairs);
    assert_eq!(folded[2], Operation::Opcode(0x3421_0002));
}

#[test]
fn early_caching_interpreter_replaces_lui_by_folded_value() {
    let ci = EarlyCachingInterpreter::new(false, None);
    let jit = Dummy_JIT::new(false, None);
    // LUI r1, 0x8000 ; ADDIU r1, r1, 0x10 ; LW r2, 4(r1) ; SW r2, 8(r1)
    let lui = (0x3c01_8000u32, jit.tag_insn(0x3c01_8000).unwrap().unwrap());
    let addiu = (0x2421_0010u32, jit.tag_insn(0x2421_0010).unwrap().unwrap());
    // loads and stores carry their base register as input: borrow the tags of
    // instructions with the same registers
    let lw = (0x8c22_0004u32, jit.tag_insn(0x2422_0000).unwrap().unwrap());
    let sw = (0xac22_0008u32, jit.tag_insn(0x0022_0021).unwrap().unwrap());
    let code = ci.compile_optimized_stub(&vec![lui, addiu, lw, sw]);
    assert_eq!(
        code,
        vec![
            Compiled::StoreConstant { register: 1, value: 0x8000_0010 },
            Compiled::ReadConstant { width: Width::Word, address: 0x8000_0014, target: 2 },
            Compiled::WriteConstant { width: Width::Word, address: 0x8000_0018, source: 2 },
        ]
    );
}

#[test]
fn early_caching_interpreter_folds_special_ops() {
    let ci = EarlyCachingInterpreter::new(false, None);
    let jit = Dummy_JIT::new(false, None);
    // ORI r1, r0, 5 ; ORI r2, r0, 7 ; SUBU r3, r1, r2 ; SLT r4, r1, r2
    let ops: Vec<u32> = vec![0x3401_0005, 0x3402_0007, 0x0022_1823, 0x0022_202a];
    let pairs: Vec<(u32, _)> = ops.iter().map(|&op| (op, jit.tag_insn(op).unwrap().unwrap())).collect();
    let code = ci.compile_optimized_stub(&pairs);
    assert_eq!(
        code,
        vec![
            Compiled::StoreConstant { register: 1, value: 5 },
            Compiled::StoreConstant { register: 2, value: 7 },
            Compiled::StoreConstant { register: 3, value: 0xffff_fffe },
            Compiled::StoreConstant { register: 4, value: 1 },
        ]
    );
    assert_eq!(ci.compile_stub(&pairs).len(), 4);
}

#[test]
fn early_block_boundaries() {
    let insn = BlockInsn::new(0x3000_0001);
    assert_eq!(insn.op(), 0x3000_0001);
    assert!(BlockInsn::is_syscall(0x3000_0001));
    assert!(!BlockInsn::is_inside_block(0x3000_0001));
    assert!(BlockInsn::is_inside_block(0x0000_000c));
    assert!(!BlockInsn::is_unconditional_jump(0x0800_0000));
}

#[test]
fn early_stub_does_nothing() {
    let mut console = Console::new(false, None);
    let stub = EmptyStub::new(0x2401_0001);
    assert_eq!(stub.execute(&mut console), None);
    assert_eq!(console.r3000.nth_reg(1), 0);
}

#[test]
fn dummy_jit_stub_accessors() {
    let stub = rspsx::dummy_jit::Stub::new(vec![Operation::Nop], 0x100, 2);
    assert_eq!(stub.operations(), &vec![Operation::Nop]);
    assert_eq!(stub.final_pc(), 0x100);
    assert_eq!(stub.len(), 2);
}

#[test]
fn dummy_cache_invalidation_drops_covering_stubs() {
    let mut d = Dummy_JIT::new(false, None);
    d.stubs.insert(0x100, rspsx::dummy_jit::Stub::new(Vec::new(), 0x108, 3));
    d.ranges_compiled.insert(0x108, vec![0x100]);
    d.stubs.insert(0x200, rspsx::dummy_jit::Stub::new(Vec::new(), 0x204, 2));
    d.ranges_compiled.insert(0x204, vec![0x200]);
    d.console.overwritten.insert(0x104);
    d.console.overwritten.insert(0x300);
    d.cache_invalidation();
    assert!(d.console.overwritten.is_empty());
    assert_eq!(d.stubs.len(), 1);
    assert!(d.stubs.contains_key(&0x200));
    assert_eq!(d.ranges_compiled.len(), 1);
    assert_eq!(d.ranges_compiled.get(&0x204), Some(&vec![0x200]));
}
