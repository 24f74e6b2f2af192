//! A small 16-bit word-addressed machine: its instruction set, its processor
//! state and executor, an assembler for its text form, challenges for its
//! programmers, the state of its operator's console and a deck of its punch
//! cards.
//!
//! The machine has an accumulator, an extension register, an instruction
//! address register and 4096 words of memory; three index registers are the
//! words 1, 2 and 3 of memory. An instruction is one word.
//!
//! - [`cpu`] holds the instruction set, the processor state and the
//!   executor; [`word`] the arithmetic of words that the executor uses.
//! - [`encoding`] and [`assembler`] go between instructions, their words and
//!   their text; [`text`] holds the handling of characters for them.
//! - [`machine`] drives a processor: step, run, and load from source.
//! - [`challenge`], [`console`] and [`deck`] stand beside the machine.

pub mod assembler;
pub mod challenge;
pub mod console;
pub mod cpu;
pub mod deck;
pub mod encoding;
pub mod machine;
pub mod text;
pub mod word;

pub use assembler::{
    decode_instruction, encode_instruction, AssembledProgram, Assembler, AssemblerError,
    AssemblyLine,
};
pub use challenge::{
    get_all_challenges, Challenge, Difficulty, TestCase, TestResult, ValidationResult,
};
pub use cpu::{AddressingMode, BranchCondition, CpuError, CpuState, Instruction};
pub use cpu::{MEMORY_SIZE, PROGRAM_START, XR1_ADDR};
pub use machine::{ListingRow, MachineError};
