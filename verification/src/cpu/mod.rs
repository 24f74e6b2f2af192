//! The processor: its instruction set, its state and its executor.

pub mod executor;
pub mod instruction;
pub mod state;

pub use instruction::{AddressingMode, BranchCondition, Instruction};
pub use state::{CpuError, CpuState, MEMORY_SIZE, PROGRAM_START, XR1_ADDR, XR2_ADDR, XR3_ADDR};
