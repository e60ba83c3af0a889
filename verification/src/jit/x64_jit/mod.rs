//! The x86-64 back end: register allocation and machine code emission.
pub mod assembler;
pub mod macro_assembler;
pub mod register_allocator;
pub mod block;
pub mod macro_compiler;
pub mod dynarec;
