# rspsx

A PlayStation (R3000A) emulator core whose logic is verified with Verus.

- `src/` is the verified library: bit fields and little-endian access, the CPU
  registers with their delayed loads, coprocessor 0 and exceptions, the GTE
  registers, the GPU command queue, the CD drive's command interface, DMA address
  planning, the memory bus decisions (`console`); the interpreter (`interpreter`);
  block compilation (`jit`): block boundaries, instruction tagging, the caching
  interpreter's stub folding, cache invalidation and run-loop bookkeeping, an
  x86-64 assembler with labels, register allocation, and the translation of
  instructions into the calls of the block recompiler (`jit::x64_jit::dynarec`);
  and the older caching and "dummy" JIT front ends.
- `app/` holds what Verus does not see: files, the SDL window, executable memory
  for generated code, RAM and device memory behind the `Memory` trait, the run loop,
  and the replay of recorded block translations onto the `jam` recompiler.
- `tests/` runs the library; `tests/x64_machine.rs` runs assembled code on a small
  x86-64 interpreter.
