//! A PlayStation (PSX) emulator core: the R3000 CPU state, its coprocessors, the GPU
//! command front end, DMA descriptions, and the instruction analysis that the block
//! block compilers use.
pub mod register;
pub mod common;
pub mod console;
pub mod interpreter;
pub mod jit;
pub mod dummy_jit;
pub mod caching_interpreter;
pub mod gpu;
