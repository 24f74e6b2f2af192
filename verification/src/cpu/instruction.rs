//! The instruction set: a closed set of instructions with their operands,
//! the two addressing modes and the six branch conditions.

use crate::text::{same_text, to_uppercase, uppercase_of};
use vstd::prelude::*;

verus! {

/// How an instruction's address field names a word of memory.
#[derive(Debug, Clone, Copy, PartialEq, Eq)]
pub enum AddressingMode {
    /// The address is used as it stands.
    Direct,
    /// The first index register is added to the address.
    Indexed,
}

/// The conditions on which `BSC` branches.
#[derive(Debug, Clone, Copy, PartialEq, Eq)]
pub enum BranchCondition {
    /// The accumulator is zero.
    Zero,
    /// The accumulator is not zero.
    NonZero,
    /// The accumulator, read as a signed number, is above zero.
    Positive,
    /// The accumulator, read as a signed number, is below zero.
    Negative,
    /// The overflow flag is set.
    Overflow,
    /// The carry flag is set.
    Carry,
}

/// One instruction with its operands.
#[derive(Debug, Clone, PartialEq, Eq)]
pub enum Instruction {
    /// Load the accumulator from memory.
    LD { addr: u16, mode: AddressingMode },
    /// Store the accumulator to memory.
    STO { addr: u16, mode: AddressingMode },
    /// Load the first index register from memory.
    LDX { addr: u16 },
    /// Store the first index register to memory.
    STX { addr: u16 },
    /// Add a word of memory to the accumulator.
    A { addr: u16, mode: AddressingMode },
    /// Subtract a word of memory from the accumulator.
    S { addr: u16, mode: AddressingMode },
    /// Bitwise and of the accumulator with a word of memory.
    AND { addr: u16, mode: AddressingMode },
    /// Bitwise or of the accumulator with a word of memory.
    OR { addr: u16, mode: AddressingMode },
    /// Shift the accumulator left.
    SLA { count: u8 },
    /// Shift the accumulator right, keeping its sign.
    SRA { count: u8 },
    /// Branch where a condition holds.
    BSC { addr: u16, condition: BranchCondition },
    /// Store the instruction address and branch behind it.
    BSI { addr: u16 },
    /// Halt.
    WAIT,
    /// Do nothing.
    NOP,
}

impl Instruction {
    /// The mnemonic of this instruction, as a sequence of characters.
    pub open spec fn spec_mnemonic(self) -> Seq<char> {
        match self {
            Instruction::LD { .. } => "LD"@,
            Instruction::STO { .. } => "STO"@,
            Instruction::LDX { .. } => "LDX"@,
            Instruction::STX { .. } => "STX"@,
            Instruction::A { .. } => "A"@,
            Instruction::S { .. } => "S"@,
            Instruction::AND { .. } => "AND"@,
            Instruction::OR { .. } => "OR"@,
            Instruction::SLA { .. } => "SLA"@,
            Instruction::SRA { .. } => "SRA"@,
            Instruction::BSC { .. } => "BSC"@,
            Instruction::BSI { .. } => "BSI"@,
            Instruction::WAIT => "WAIT"@,
            Instruction::NOP => "NOP"@,
        }
    }

    /// The mnemonic of this instruction.
    pub fn mnemonic(&self) -> (r: &'static str)
        ensures
            r@ == self.spec_mnemonic(),
    {
        match self {
            Instruction::LD { .. } => "LD",
            Instruction::STO { .. } => "STO",
            Instruction::LDX { .. } => "LDX",
            Instruction::STX { .. } => "STX",
            Instruction::A { .. } => "A",
            Instruction::S { .. } => "S",
            Instruction::AND { .. } => "AND",
            Instruction::OR { .. } => "OR",
            Instruction::SLA { .. } => "SLA",
            Instruction::SRA { .. } => "SRA",
            Instruction::BSC { .. } => "BSC",
            Instruction::BSI { .. } => "BSI",
            Instruction::WAIT => "WAIT",
            Instruction::NOP => "NOP",
        }
    }
}

impl BranchCondition {
    /// The letters that stand for this condition.
    pub open spec fn letters(self) -> Seq<char> {
        match self {
            BranchCondition::Zero => "Z"@,
            BranchCondition::NonZero => "NZ"@,
            BranchCondition::Positive => "P"@,
            BranchCondition::Negative => "N"@,
            BranchCondition::Overflow => "V"@,
            BranchCondition::Carry => "C"@,
        }
    }

    /// The condition that the upper-case letters `s` stand for, if any.
    pub open spec fn lettered(s: Seq<char>) -> Option<BranchCondition> {
        if s == "Z"@ {
            Some(BranchCondition::Zero)
        } else if s == "NZ"@ {
            Some(BranchCondition::NonZero)
        } else if s == "P"@ {
            Some(BranchCondition::Positive)
        } else if s == "N"@ {
            Some(BranchCondition::Negative)
        } else if s == "V"@ {
            Some(BranchCondition::Overflow)
        } else if s == "C"@ {
            Some(BranchCondition::Carry)
        } else {
            None
        }
    }

    /// The letters that stand for this condition.
    pub fn to_str(&self) -> (r: &'static str)
        ensures
            r@ == self.letters(),
    {
        match self {
            BranchCondition::Zero => "Z",
            BranchCondition::NonZero => "NZ",
            BranchCondition::Positive => "P",
            BranchCondition::Negative => "N",
            BranchCondition::Overflow => "V",
            BranchCondition::Carry => "C",
        }
    }

    /// The condition that `upper` stands for, where `upper` is already in
    /// upper case: one of `Z`, `NZ`, `P`, `N`, `V`, `C`.
    pub fn from_letters(upper: &str) -> (r: Option<BranchCondition>)
        ensures
            r == Self::lettered(upper@),
    {
        if same_text(upper, "Z") {
            Some(BranchCondition::Zero)
        } else if same_text(upper, "NZ") {
            Some(BranchCondition::NonZero)
        } else if same_text(upper, "P") {
            Some(BranchCondition::Positive)
        } else if same_text(upper, "N") {
            Some(BranchCondition::Negative)
        } else if same_text(upper, "V") {
            Some(BranchCondition::Overflow)
        } else if same_text(upper, "C") {
            Some(BranchCondition::Carry)
        } else {
            None
        }
    }

    /// The condition that `s` stands for, whatever the case of its letters.
    pub fn parse(s: &str) -> (r: Option<BranchCondition>)
        ensures
            r == Self::lettered(uppercase_of(s@)),
    {
        let upper = to_uppercase(s);
        Self::from_letters(upper.as_str())
    }

    /// Each condition is the one that its own letters stand for.
    pub proof fn lemma_letters_name_their_condition(self)
        ensures
            Self::lettered(self.letters()) == Some(self),
    {
        reveal_strlit("Z");
        reveal_strlit("NZ");
        reveal_strlit("P");
        reveal_strlit("N");
        reveal_strlit("V");
        reveal_strlit("C");
        assert("Z"@.len() == 1 && "NZ"@.len() == 2 && "P"@.len() == 1 && "N"@.len() == 1
            && "V"@.len() == 1 && "C"@.len() == 1);
        assert("Z"@[0] == 'Z' && "P"@[0] == 'P' && "N"@[0] == 'N' && "V"@[0] == 'V' && "C"@[0]
            == 'C');
    }
}

} // verus!
