//! An interpreter core for a classic 8-bit virtual machine: a decoder from
//! instruction words to typed instructions, a memory with a monochrome
//! bitmap surface, and a CPU whose `step` and `tick` are stated as exact
//! state transitions.
pub mod instruction;
pub mod memory;
pub mod cpu;
pub mod laws;
