//! A verified CHIP-8 execution engine.
//!
//! The library owns all machine state (memory, registers, call stack, timers,
//! framebuffer, keypad) and exposes "run one cycle" and "advance timers"
//! operations. It drives no loop and performs no I/O: the host feeds it key
//! states, invokes cycles, and reads the framebuffer back for display.

pub mod instr;
pub mod cpu;
pub mod keymap;
pub mod render;
pub mod laws;
