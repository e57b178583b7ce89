//! An emulator core for a 32-bit little-endian ARM-like instruction
//! set: a byte-addressable memory, a register file with condition flags,
//! and a three-stage fetch/decode/execute pipeline that drains when it
//! reaches the all-zero halt word.
//!
//! The semantics live in spec functions over a mathematical machine view
//! (register file and memory as sequences, plus the three pipeline
//! slots): one transform per instruction category, `spec_tick` for a
//! whole pipeline step, and `spec_steps` for a bounded run. The
//! executable driver is proved to follow that model tick for tick:
//! `emulate` hands back exactly the machine that `spec_steps` reaches
//! from the loaded image, or the error of the tick that failed.

pub mod barrel_shifter;
pub mod branch_instr;
pub mod data_proc_instr;
pub mod em_utilities;
pub mod multiply_instr;
pub mod pipeline_executor;
pub mod single_data_transfer_instr;
