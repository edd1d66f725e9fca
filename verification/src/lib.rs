//! Core of a small 8-bit fantasy-console virtual machine: a 4 KiB address
//! space with a fixed-depth call stack, a 16-register file, a 64x32
//! monochrome framebuffer with XOR sprite compositing, an opcode decoder for
//! the 35-entry instruction table, and the fetch-decode-execute engine that
//! ties them together. Windowing, audio and input live in the host, which
//! drives the engine one step at a time.

pub mod decode;
pub mod display;
pub mod instr;
pub mod memory;
pub mod vm;
