//! The binary form of an instruction: one 16-bit word.
//!
//! The top four bits hold the operation and the low eight bits an address
//! or a shift count. Of the four bits between them, a branch uses all for
//! its condition; an instruction with an addressing mode uses the lowest,
//! the bit 8, as the flag for indexed addressing and ignores the others. An
//! address above 255 does not fit and loses its high bits.

use crate::assembler::{AssemblerError, AssemblerFault};
use crate::cpu::instruction::{AddressingMode, BranchCondition, Instruction};
use crate::text::{decimal, digit_char, push_decimal, push_digit, push_text};
use vstd::prelude::*;

verus! {

/// The number that stands for an addressing mode in the modifier bits.
pub open spec fn mode_code(mode: AddressingMode) -> nat {
    match mode {
        AddressingMode::Direct => 0,
        AddressingMode::Indexed => 1,
    }
}

/// The number that stands for a branch condition in the modifier bits.
pub open spec fn condition_code(condition: BranchCondition) -> nat {
    match condition {
        BranchCondition::Zero => 0,
        BranchCondition::NonZero => 1,
        BranchCondition::Positive => 2,
        BranchCondition::Negative => 3,
        BranchCondition::Overflow => 4,
        BranchCondition::Carry => 5,
    }
}

/// The branch condition that `code` stands for, if any.
pub open spec fn condition_of_code(code: nat) -> Option<BranchCondition> {
    if code == 0 {
        Some(BranchCondition::Zero)
    } else if code == 1 {
        Some(BranchCondition::NonZero)
    } else if code == 2 {
        Some(BranchCondition::Positive)
    } else if code == 3 {
        Some(BranchCondition::Negative)
    } else if code == 4 {
        Some(BranchCondition::Overflow)
    } else if code == 5 {
        Some(BranchCondition::Carry)
    } else {
        None
    }
}

/// The addressing mode that a modifier stands for. Its lowest bit, which
/// is the bit 8 of the word, is the flag: indexed where it is set, direct
/// where it is not. The other bits of the modifier play no part.
pub open spec fn mode_of_code(code: nat) -> AddressingMode {
    if code % 2 == 1 {
        AddressingMode::Indexed
    } else {
        AddressingMode::Direct
    }
}

impl Instruction {
    /// The operation code, which fills the top four bits.
    pub open spec fn operation(self) -> nat {
        match self {
            Instruction::NOP => 0x0,
            Instruction::LD { .. } => 0x1,
            Instruction::STO { .. } => 0x2,
            Instruction::LDX { .. } => 0x3,
            Instruction::STX { .. } => 0x4,
            Instruction::A { .. } => 0x5,
            Instruction::S { .. } => 0x6,
            Instruction::AND { .. } => 0x7,
            Instruction::OR { .. } => 0x8,
            Instruction::SLA { .. } => 0x9,
            Instruction::SRA { .. } => 0xA,
            Instruction::BSC { .. } => 0xB,
            Instruction::BSI { .. } => 0xC,
            Instruction::WAIT => 0xF,
        }
    }

    /// The modifier, which fills the bits 11 to 8.
    pub open spec fn modifier(self) -> nat {
        match self {
            Instruction::LD { mode, .. }
            | Instruction::STO { mode, .. }
            | Instruction::A { mode, .. }
            | Instruction::S { mode, .. }
            | Instruction::AND { mode, .. }
            | Instruction::OR { mode, .. } => mode_code(mode),
            Instruction::BSC { condition, .. } => condition_code(condition),
            _ => 0,
        }
    }

    /// The operand, which fills the low eight bits: the low eight bits of
    /// the address, or the shift count.
    pub open spec fn operand_byte(self) -> nat {
        match self {
            Instruction::LD { addr, .. }
            | Instruction::STO { addr, .. }
            | Instruction::LDX { addr }
            | Instruction::STX { addr }
            | Instruction::A { addr, .. }
            | Instruction::S { addr, .. }
            | Instruction::AND { addr, .. }
            | Instruction::OR { addr, .. }
            | Instruction::BSC { addr, .. }
            | Instruction::BSI { addr } => (addr % 0x100) as nat,
            Instruction::SLA { count } | Instruction::SRA { count } => count as nat,
            Instruction::WAIT | Instruction::NOP => 0,
        }
    }

    /// The word that stands for this instruction.
    pub open spec fn encoding(self) -> u16 {
        (self.operation() * 0x1000 + self.modifier() * 0x100 + self.operand_byte()) as u16
    }

    /// Whether the encoding holds all of this instruction, which is so where
    /// its address, if it has one, is at most 255.
    pub open spec fn representable(self) -> bool {
        match self {
            Instruction::LD { addr, .. }
            | Instruction::STO { addr, .. }
            | Instruction::LDX { addr }
            | Instruction::STX { addr }
            | Instruction::A { addr, .. }
            | Instruction::S { addr, .. }
            | Instruction::AND { addr, .. }
            | Instruction::OR { addr, .. }
            | Instruction::BSC { addr, .. }
            | Instruction::BSI { addr } => addr <= 0xFF,
            _ => true,
        }
    }

    /// This instruction with its address, if it has one, cut to its low
    /// eight bits.
    pub open spec fn masked(self) -> Instruction {
        match self {
            Instruction::LD { addr, mode } => Instruction::LD { addr: addr % 0x100, mode },
            Instruction::STO { addr, mode } => Instruction::STO { addr: addr % 0x100, mode },
            Instruction::LDX { addr } => Instruction::LDX { addr: addr % 0x100 },
            Instruction::STX { addr } => Instruction::STX { addr: addr % 0x100 },
            Instruction::A { addr, mode } => Instruction::A { addr: addr % 0x100, mode },
            Instruction::S { addr, mode } => Instruction::S { addr: addr % 0x100, mode },
            Instruction::AND { addr, mode } => Instruction::AND { addr: addr % 0x100, mode },
            Instruction::OR { addr, mode } => Instruction::OR { addr: addr % 0x100, mode },
            Instruction::BSC { addr, condition } => Instruction::BSC {
                addr: addr % 0x100,
                condition,
            },
            Instruction::BSI { addr } => Instruction::BSI { addr: addr % 0x100 },
            other => other,
        }
    }
}

/// The instruction that `opcode` stands for, or why it stands for none: the
/// operations 0xD and 0xE do not exist, and a branch knows the conditions 0
/// to 5 only. The addressing mode is read from the bit 8 alone.
pub open spec fn decoding(opcode: u16) -> Result<Instruction, AssemblerFault> {
    let operation = (opcode / 0x1000) as nat;
    let modifier = (opcode / 0x100 % 0x10) as nat;
    let low = opcode % 0x100;
    let mode = mode_of_code(modifier);
    if operation == 0x0 {
        Ok(Instruction::NOP)
    } else if operation == 0x1 {
        Ok(Instruction::LD { addr: low, mode })
    } else if operation == 0x2 {
        Ok(Instruction::STO { addr: low, mode })
    } else if operation == 0x3 {
        Ok(Instruction::LDX { addr: low })
    } else if operation == 0x4 {
        Ok(Instruction::STX { addr: low })
    } else if operation == 0x5 {
        Ok(Instruction::A { addr: low, mode })
    } else if operation == 0x6 {
        Ok(Instruction::S { addr: low, mode })
    } else if operation == 0x7 {
        Ok(Instruction::AND { addr: low, mode })
    } else if operation == 0x8 {
        Ok(Instruction::OR { addr: low, mode })
    } else if operation == 0x9 {
        Ok(Instruction::SLA { count: low as u8 })
    } else if operation == 0xA {
        Ok(Instruction::SRA { count: low as u8 })
    } else if operation == 0xB {
        match condition_of_code(modifier) {
            Some(condition) => Ok(Instruction::BSC { addr: low, condition }),
            None => Err(
                AssemblerFault::InvalidCondition("Unknown condition code: "@ + decimal(modifier)),
            ),
        }
    } else if operation == 0xC {
        Ok(Instruction::BSI { addr: low })
    } else if operation == 0xF {
        Ok(Instruction::WAIT)
    } else {
        Err(AssemblerFault::InvalidMnemonic("Unknown opcode: 0x"@.push(digit_char(operation))))
    }
}

/// The fields of a word: its top four bits, the four below them with the
/// lowest of these, and its low eight bits.
proof fn lemma_fields(opcode: u16)
    ensures
        (opcode >> 12) & 0xF == opcode / 0x1000,
        (opcode >> 8) & 0xF == opcode / 0x100 % 0x10,
        (opcode >> 8) & 1 == opcode / 0x100 % 0x10 % 2,
        opcode & 0xFF == opcode % 0x100,
{
    assert((opcode >> 8) & 1 == opcode / 0x100 % 0x10 % 2) by (bit_vector);
    assert((opcode >> 12) & 0xF == opcode / 0x1000) by (bit_vector);
    assert((opcode >> 8) & 0xF == opcode / 0x100 % 0x10) by (bit_vector);
    assert(opcode & 0xFF == opcode % 0x100) by (bit_vector);
}

/// Puts three fields together into one word.
fn pack(operation: u16, modifier: u16, operand: u16) -> (r: u16)
    requires
        operation <= 0xF,
        modifier <= 0xF,
    ensures
        r == operation * 0x1000 + modifier * 0x100 + operand % 0x100,
{
    assert((operation << 12) | (modifier << 8) | (operand & 0xFF) == operation * 0x1000 + modifier
        * 0x100 + operand % 0x100) by (bit_vector)
        requires
            operation <= 0xF,
            modifier <= 0xF,
    ;
    (operation << 12) | (modifier << 8) | (operand & 0xFF)
}

/// The modifier bit of an addressing mode.
fn mode_bit(mode: AddressingMode) -> (r: u16)
    ensures
        r == mode_code(mode),
{
    match mode {
        AddressingMode::Direct => 0,
        AddressingMode::Indexed => 1,
    }
}

/// The modifier bits of a branch condition.
fn condition_bits(condition: BranchCondition) -> (r: u16)
    ensures
        r == condition_code(condition),
{
    match condition {
        BranchCondition::Zero => 0,
        BranchCondition::NonZero => 1,
        BranchCondition::Positive => 2,
        BranchCondition::Negative => 3,
        BranchCondition::Overflow => 4,
        BranchCondition::Carry => 5,
    }
}

/// Encodes an instruction into its word. This always succeeds; an address
/// above 255 loses its high bits.
pub fn encode_instruction(instr: &Instruction) -> (r: Result<u16, AssemblerError>)
    ensures
        r is Ok,
        r.unwrap() == instr.encoding(),
{
    let word = match instr {
        Instruction::LD { addr, mode } => pack(0x1, mode_bit(*mode), *addr),
        Instruction::STO { addr, mode } => pack(0x2, mode_bit(*mode), *addr),
        Instruction::LDX { addr } => pack(0x3, 0, *addr),
        Instruction::STX { addr } => pack(0x4, 0, *addr),
        Instruction::A { addr, mode } => pack(0x5, mode_bit(*mode), *addr),
        Instruction::S { addr, mode } => pack(0x6, mode_bit(*mode), *addr),
        Instruction::AND { addr, mode } => pack(0x7, mode_bit(*mode), *addr),
        Instruction::OR { addr, mode } => pack(0x8, mode_bit(*mode), *addr),
        Instruction::SLA { count } => pack(0x9, 0, *count as u16),
        Instruction::SRA { count } => pack(0xA, 0, *count as u16),
        Instruction::BSC { addr, condition } => pack(0xB, condition_bits(*condition), *addr),
        Instruction::BSI { addr } => pack(0xC, 0, *addr),
        Instruction::WAIT => pack(0xF, 0, 0),
        Instruction::NOP => pack(0x0, 0, 0),
    };
    Ok(word)
}

/// Decodes a word into the instruction that it stands for.
pub fn decode_instruction(opcode: u16) -> (r: Result<Instruction, AssemblerError>)
    ensures
        crate::assembler::outcome(r) == decoding(opcode),
{
    proof {
        lemma_fields(opcode);
    }
    let op = (opcode >> 12) & 0xF;
    let modifier = (opcode >> 8) & 0xF;
    let addr = opcode & 0xFF;
    let mode = if (opcode >> 8) & 1 == 1 {
        AddressingMode::Indexed
    } else {
        AddressingMode::Direct
    };
    match op {
        0x0 => Ok(Instruction::NOP),
        0x1 => Ok(Instruction::LD { addr, mode }),
        0x2 => Ok(Instruction::STO { addr, mode }),
        0x3 => Ok(Instruction::LDX { addr }),
        0x4 => Ok(Instruction::STX { addr }),
        0x5 => Ok(Instruction::A { addr, mode }),
        0x6 => Ok(Instruction::S { addr, mode }),
        0x7 => Ok(Instruction::AND { addr, mode }),
        0x8 => Ok(Instruction::OR { addr, mode }),
        0x9 => Ok(Instruction::SLA { count: addr as u8 }),
        0xA => Ok(Instruction::SRA { count: addr as u8 }),
        0xB => {
            let condition = match modifier {
                0 => BranchCondition::Zero,
                1 => BranchCondition::NonZero,
                2 => BranchCondition::Positive,
                3 => BranchCondition::Negative,
                4 => BranchCondition::Overflow,
                5 => BranchCondition::Carry,
                _ => {
                    let mut text = String::new();
                    push_text(&mut text, "Unknown condition code: ");
                    push_decimal(&mut text, modifier as u64);
                    return Err(AssemblerError::InvalidCondition(text));
                },
            };
            Ok(Instruction::BSC { addr, condition })
        },
        0xC => Ok(Instruction::BSI { addr }),
        0xF => Ok(Instruction::WAIT),
        _ => {
            let mut text = String::new();
            push_text(&mut text, "Unknown opcode: 0x");
            push_digit(&mut text, op as u8);
            Err(AssemblerError::InvalidMnemonic(text))
        },
    }
}

/// To decode what was encoded gives the instruction back, where the
/// encoding holds all of it.
pub proof fn lemma_decode_encode(instr: Instruction)
    requires
        instr.representable(),
    ensures
        decoding(instr.encoding()) == Ok::<Instruction, AssemblerFault>(instr),
{
}

/// To decode what was encoded gives the instruction with its address cut
/// to the low eight bits, whatever the address was.
pub proof fn lemma_decode_encode_masks(instr: Instruction)
    ensures
        decoding(instr.encoding()) == Ok::<Instruction, AssemblerFault>(instr.masked()),
        instr.representable() ==> instr.masked() == instr,
{
}

/// Only the low eight bits of an address reach the encoding: an instruction
/// and the same instruction with its address cut to them encode alike.
pub proof fn lemma_encoding_masks_address(instr: Instruction)
    ensures
        instr.encoding() == instr.masked().encoding(),
        instr.masked().representable(),
{
}

} // verus!
