//! The executor: what one instruction does to a processor state.
//!
//! The meaning of the instruction set is the function [`CpuView::executed`];
//! [`CpuState::execute`] computes it. An instruction either takes effect as
//! a whole or fails and leaves the state as it was.

use super::instruction::{AddressingMode, BranchCondition, Instruction};
use super::state::{CpuError, CpuState, CpuView, MEMORY_SIZE};
use crate::word::{
    beyond_signed, lemma_add_flags, lemma_sub_flags, sar_word, shift_left, shift_right_signed,
    shl_word, signed, wrapped,
};
use vstd::prelude::*;

verus! {

impl CpuView {
    /// The address that an instruction works on: `addr` itself, or `addr`
    /// plus the first index register, modulo 2^16.
    pub open spec fn effective_address(self, addr: u16, mode: AddressingMode) -> u16 {
        match mode {
            AddressingMode::Direct => addr,
            AddressingMode::Indexed => wrapped(addr + self.xr1()),
        }
    }

    /// The word that an instruction with the given address field reads, or
    /// the error where its effective address lies outside memory.
    pub open spec fn operand(self, addr: u16, mode: AddressingMode) -> Result<u16, CpuError> {
        let ea = self.effective_address(addr, mode);
        if ea < MEMORY_SIZE {
            Ok(self.memory[ea as int])
        } else {
            Err(CpuError::MemoryOutOfBounds(ea))
        }
    }

    /// Whether a branch condition holds in this state.
    pub open spec fn holds(self, condition: BranchCondition) -> bool {
        match condition {
            BranchCondition::Zero => self.acc == 0,
            BranchCondition::NonZero => self.acc != 0,
            BranchCondition::Positive => signed(self.acc) > 0,
            BranchCondition::Negative => signed(self.acc) < 0,
            BranchCondition::Overflow => self.overflow,
            BranchCondition::Carry => self.carry,
        }
    }

    /// This state with the accumulator set to `value`.
    pub open spec fn with_acc(self, value: u16) -> CpuView {
        CpuView { acc: value, ..self }
    }

    /// What an instruction does to registers, flags and memory, the counters
    /// apart; or the error on which it leaves everything as it is.
    pub open spec fn effect(self, instr: Instruction) -> Result<CpuView, CpuError> {
        match instr {
            Instruction::LD { addr, mode } => match self.operand(addr, mode) {
                Ok(word) => Ok(self.with_acc(word)),
                Err(e) => Err(e),
            },
            Instruction::STO { addr, mode } => {
                let ea = self.effective_address(addr, mode);
                if ea < MEMORY_SIZE {
                    Ok(self.store(ea, self.acc))
                } else {
                    Err(CpuError::MemoryOutOfBounds(ea))
                }
            },
            Instruction::LDX { addr } => match self.operand(addr, AddressingMode::Direct) {
                Ok(word) => Ok(self.store(super::state::XR1_ADDR, word)),
                Err(e) => Err(e),
            },
            Instruction::STX { addr } => if addr < MEMORY_SIZE {
                Ok(self.store(addr, self.xr1()))
            } else {
                Err(CpuError::MemoryOutOfBounds(addr))
            },
            Instruction::A { addr, mode } => match self.operand(addr, mode) {
                Ok(word) => Ok(
                    CpuView {
                        acc: wrapped(self.acc + word),
                        carry: self.acc + word > 0xFFFF,
                        overflow: beyond_signed(signed(self.acc) + signed(word)),
                        ..self
                    },
                ),
                Err(e) => Err(e),
            },
            Instruction::S { addr, mode } => match self.operand(addr, mode) {
                Ok(word) => Ok(
                    CpuView {
                        acc: wrapped(self.acc - word),
                        carry: self.acc < word,
                        overflow: beyond_signed(signed(self.acc) - signed(word)),
                        ..self
                    },
                ),
                Err(e) => Err(e),
            },
            Instruction::AND { addr, mode } => match self.operand(addr, mode) {
                Ok(word) => Ok(self.with_acc(self.acc & word)),
                Err(e) => Err(e),
            },
            Instruction::OR { addr, mode } => match self.operand(addr, mode) {
                Ok(word) => Ok(self.with_acc(self.acc | word)),
                Err(e) => Err(e),
            },
            Instruction::SLA { count } => Ok(self.with_acc(shift_left(self.acc, count))),
            Instruction::SRA { count } => Ok(self.with_acc(shift_right_signed(self.acc, count))),
            Instruction::BSC { addr, condition } => if !self.holds(condition) {
                Ok(self)
            } else if addr < MEMORY_SIZE {
                Ok(CpuView { iar: addr, ..self })
            } else {
                Err(CpuError::IarOutOfBounds(addr))
            },
            Instruction::BSI { addr } => if addr >= MEMORY_SIZE {
                Err(CpuError::MemoryOutOfBounds(addr))
            } else if addr + 1 >= MEMORY_SIZE {
                Err(CpuError::IarOutOfBounds((addr + 1) as u16))
            } else {
                Ok(CpuView { iar: (addr + 1) as u16, ..self.store(addr, self.iar) })
            },
            Instruction::WAIT => Ok(CpuView { halted: true, ..self }),
            Instruction::NOP => Ok(self),
        }
    }

    /// This state after one more instruction and one more cycle were counted.
    pub open spec fn counted(self) -> CpuView {
        CpuView {
            instruction_count: (self.instruction_count + 1) as u64,
            cycle_count: (self.cycle_count + 1) as u64,
            ..self
        }
    }

    /// The state after `instr` was executed, or the error on which the state
    /// stays as it is. A halted processor executes nothing.
    pub open spec fn executed(self, instr: Instruction) -> Result<CpuView, CpuError> {
        if self.halted {
            Err(CpuError::Halted)
        } else {
            match self.effect(instr) {
                Ok(next) => Ok(next.counted()),
                Err(e) => Err(e),
            }
        }
    }
}

/// Whether a call that took a state from `before` to `after` and returned
/// `r` did what `expected` says: reached that state, or failed with that
/// error and changed nothing.
pub open spec fn follows(
    before: CpuView,
    r: Result<(), CpuError>,
    after: CpuView,
    expected: Result<CpuView, CpuError>,
) -> bool {
    match expected {
        Ok(next) => r is Ok && after == next,
        Err(e) => r == Err::<(), CpuError>(e) && after == before,
    }
}

impl CpuState {
    /// Executes one instruction. On an error nothing has changed; otherwise
    /// the instruction has taken effect and both counters have gone up by
    /// one.
    pub fn execute(&mut self, instr: &Instruction) -> (r: Result<(), CpuError>)
        requires
            !old(self)@.halted ==> old(self)@.cycle_count < u64::MAX
                && old(self)@.instruction_count < u64::MAX,
        ensures
            follows(old(self)@, r, final(self)@, old(self)@.executed(*instr)),
            final(self)@.wf(),
    {
        if self.is_halted() {
            return Err(CpuError::Halted);
        }
        let done = match instr {
            Instruction::LD { addr, mode } => self.exec_ld(*addr, *mode),
            Instruction::STO { addr, mode } => self.exec_sto(*addr, *mode),
            Instruction::LDX { addr } => self.exec_ldx(*addr),
            Instruction::STX { addr } => self.exec_stx(*addr),
            Instruction::A { addr, mode } => self.exec_add(*addr, *mode),
            Instruction::S { addr, mode } => self.exec_sub(*addr, *mode),
            Instruction::AND { addr, mode } => self.exec_and(*addr, *mode),
            Instruction::OR { addr, mode } => self.exec_or(*addr, *mode),
            Instruction::SLA { count } => {
                self.exec_sla(*count);
                Ok(())
            },
            Instruction::SRA { count } => {
                self.exec_sra(*count);
                Ok(())
            },
            Instruction::BSC { addr, condition } => self.exec_bsc(*addr, *condition),
            Instruction::BSI { addr } => self.exec_bsi(*addr),
            Instruction::WAIT => {
                self.halt();
                Ok(())
            },
            Instruction::NOP => Ok(()),
        };
        match done {
            Ok(()) => {
                self.count_instruction();
                self.tick();
                Ok(())
            },
            Err(e) => Err(e),
        }
    }

    /// The address that an instruction works on.
    fn effective_address(&self, addr: u16, mode: AddressingMode) -> (ea: u16)
        ensures
            ea == self@.effective_address(addr, mode),
    {
        match mode {
            AddressingMode::Direct => addr,
            AddressingMode::Indexed => addr.wrapping_add(self.read_xr1()),
        }
    }

    fn exec_ld(&mut self, addr: u16, mode: AddressingMode) -> (r: Result<(), CpuError>)
        ensures
            follows(old(self)@, r, final(self)@, old(self)@.effect(Instruction::LD { addr, mode })),
            final(self)@.wf(),
    {
        let ea = self.effective_address(addr, mode);
        let value = self.read_word(ea)?;
        self.write_acc(value);
        Ok(())
    }

    fn exec_sto(&mut self, addr: u16, mode: AddressingMode) -> (r: Result<(), CpuError>)
        ensures
            follows(
                old(self)@,
                r,
                final(self)@,
                old(self)@.effect(Instruction::STO { addr, mode }),
            ),
            final(self)@.wf(),
    {
        let ea = self.effective_address(addr, mode);
        let value = self.read_acc();
        self.write_word(ea, value)
    }

    fn exec_ldx(&mut self, addr: u16) -> (r: Result<(), CpuError>)
        ensures
            follows(old(self)@, r, final(self)@, old(self)@.effect(Instruction::LDX { addr })),
            final(self)@.wf(),
    {
        let value = self.read_word(addr)?;
        self.write_xr1(value);
        Ok(())
    }

    fn exec_stx(&mut self, addr: u16) -> (r: Result<(), CpuError>)
        ensures
            follows(old(self)@, r, final(self)@, old(self)@.effect(Instruction::STX { addr })),
            final(self)@.wf(),
    {
        let value = self.read_xr1();
        self.write_word(addr, value)
    }

    fn exec_add(&mut self, addr: u16, mode: AddressingMode) -> (r: Result<(), CpuError>)
        ensures
            follows(old(self)@, r, final(self)@, old(self)@.effect(Instruction::A { addr, mode })),
            final(self)@.wf(),
    {
        let ea = self.effective_address(addr, mode);
        let operand = self.read_word(ea)?;
        let acc = self.read_acc();
        let result = acc.wrapping_add(operand);
        self.write_acc(result);
        self.update_flags_add(acc, operand, result);
        proof {
            lemma_add_flags(acc, operand);
        }
        Ok(())
    }

    fn exec_sub(&mut self, addr: u16, mode: AddressingMode) -> (r: Result<(), CpuError>)
        ensures
            follows(old(self)@, r, final(self)@, old(self)@.effect(Instruction::S { addr, mode })),
            final(self)@.wf(),
    {
        let ea = self.effective_address(addr, mode);
        let operand = self.read_word(ea)?;
        let acc = self.read_acc();
        let result = acc.wrapping_sub(operand);
        self.write_acc(result);
        self.update_flags_sub(acc, operand, result);
        proof {
            lemma_sub_flags(acc, operand);
        }
        Ok(())
    }

    fn exec_and(&mut self, addr: u16, mode: AddressingMode) -> (r: Result<(), CpuError>)
        ensures
            follows(
                old(self)@,
                r,
                final(self)@,
                old(self)@.effect(Instruction::AND { addr, mode }),
            ),
            final(self)@.wf(),
    {
        let ea = self.effective_address(addr, mode);
        let operand = self.read_word(ea)?;
        let result = self.read_acc() & operand;
        self.write_acc(result);
        Ok(())
    }

    fn exec_or(&mut self, addr: u16, mode: AddressingMode) -> (r: Result<(), CpuError>)
        ensures
            follows(old(self)@, r, final(self)@, old(self)@.effect(Instruction::OR { addr, mode })),
            final(self)@.wf(),
    {
        let ea = self.effective_address(addr, mode);
        let operand = self.read_word(ea)?;
        let result = self.read_acc() | operand;
        self.write_acc(result);
        Ok(())
    }

    fn exec_sla(&mut self, count: u8)
        ensures
            old(self)@.effect(Instruction::SLA { count }) == Ok::<CpuView, CpuError>(final(self)@),
            final(self)@.wf(),
    {
        let acc = self.read_acc();
        let result = shl_word(acc, count);
        self.write_acc(result);
    }

    fn exec_sra(&mut self, count: u8)
        ensures
            old(self)@.effect(Instruction::SRA { count }) == Ok::<CpuView, CpuError>(final(self)@),
            final(self)@.wf(),
    {
        let acc = self.read_acc();
        let result = sar_word(acc, count);
        self.write_acc(result);
    }

    /// Whether a branch condition holds now.
    fn condition_holds(&self, condition: BranchCondition) -> (b: bool)
        ensures
            b == self@.holds(condition),
            self@.wf(),
    {
        let acc = self.read_acc();
        match condition {
            BranchCondition::Zero => acc == 0,
            BranchCondition::NonZero => acc != 0,
            BranchCondition::Positive => 0 < acc && acc < 0x8000,
            BranchCondition::Negative => acc >= 0x8000,
            BranchCondition::Overflow => self.overflow(),
            BranchCondition::Carry => self.carry(),
        }
    }

    fn exec_bsc(&mut self, addr: u16, condition: BranchCondition) -> (r: Result<(), CpuError>)
        ensures
            follows(
                old(self)@,
                r,
                final(self)@,
                old(self)@.effect(Instruction::BSC { addr, condition }),
            ),
            final(self)@.wf(),
    {
        if self.condition_holds(condition) {
            self.set_iar(addr)
        } else {
            Ok(())
        }
    }

    fn exec_bsi(&mut self, addr: u16) -> (r: Result<(), CpuError>)
        ensures
            follows(old(self)@, r, final(self)@, old(self)@.effect(Instruction::BSI { addr })),
            final(self)@.wf(),
    {
        let return_addr = self.iar();
        let target = addr.wrapping_add(1);
        if addr as usize >= MEMORY_SIZE {
            return Err(CpuError::MemoryOutOfBounds(addr));
        }
        if target as usize >= MEMORY_SIZE {
            return Err(CpuError::IarOutOfBounds(target));
        }
        self.write_word(addr, return_addr)?;
        self.set_iar(target)
    }
}

/// A halted processor executes nothing: whatever the instruction, the
/// outcome is the error `Halted`, on which the state stays as it is.
pub proof fn lemma_halted_rejects(s: CpuView, instr: Instruction)
    requires
        s.halted,
    ensures
        s.executed(instr) == Err::<CpuView, CpuError>(CpuError::Halted),
{
}

/// `WAIT` halts the processor, and nothing is executed after it: the state
/// behind `WAIT` differs from the one before it in the halted state and the
/// counters only, and every instruction that follows is rejected.
pub proof fn lemma_wait_ends_execution(s: CpuView, next: Instruction)
    requires
        !s.halted,
    ensures
        s.executed(Instruction::WAIT) == Ok::<CpuView, CpuError>(
            CpuView { halted: true, ..s }.counted(),
        ),
        s.executed(Instruction::WAIT)->Ok_0.executed(next) == Err::<CpuView, CpuError>(
            CpuError::Halted,
        ),
{
}

/// An indexed load reads the word whose address is the sum of the address
/// field and the first index register, modulo 2^16; it fails where that word
/// lies outside memory.
pub proof fn lemma_indexed_load(s: CpuView, addr: u16)
    requires
        s.wf(),
        !s.halted,
    ensures
        ({
            let ea = (addr + s.xr1()) % 0x1_0000;
            let instr = Instruction::LD { addr, mode: AddressingMode::Indexed };
            &&& ea < MEMORY_SIZE ==> s.executed(instr) == Ok::<CpuView, CpuError>(
                s.with_acc(s.memory[ea]).counted(),
            )
            &&& ea >= MEMORY_SIZE ==> s.executed(instr) == Err::<CpuView, CpuError>(
                CpuError::MemoryOutOfBounds(ea as u16),
            )
        }),
{
}

/// The flags of an addition and of a subtraction, as `A` and `S` set them:
/// carry exactly where the unsigned result left the 16 bits, overflow
/// exactly where the rule of signs holds of the operands and the result.
pub proof fn lemma_arithmetic_flags(s: CpuView, addr: u16, mode: AddressingMode)
    requires
        s.wf(),
        s.operand(addr, mode) is Ok,
    ensures
        ({
            let word = s.operand(addr, mode)->Ok_0;
            let sum = s.effect(Instruction::A { addr, mode })->Ok_0;
            let difference = s.effect(Instruction::S { addr, mode })->Ok_0;
            &&& sum.acc == wrapped(s.acc + word)
            &&& sum.carry == (s.acc + word != sum.acc)
            &&& sum.overflow == crate::word::sign_rule_add(s.acc, word, sum.acc)
            &&& difference.acc == wrapped(s.acc - word)
            &&& difference.carry == (s.acc - word != difference.acc)
            &&& difference.overflow == crate::word::sign_rule_sub(s.acc, word, difference.acc)
        }),
{
    let word = s.operand(addr, mode)->Ok_0;
    lemma_add_flags(s.acc, word);
    lemma_sub_flags(s.acc, word);
}

/// What `A` does, as a whole: the accumulator becomes the sum modulo 2^16,
/// carry tells whether the unsigned sum left the 16 bits, overflow whether
/// the signed sum left the range of a signed word, both counters go up by
/// one, and everything else stays. Where the effective address lies outside
/// memory, the instruction fails with that address.
pub proof fn lemma_add(s: CpuView, addr: u16, mode: AddressingMode)
    requires
        !s.halted,
    ensures
        ({
            let ea = s.effective_address(addr, mode);
            let instr = Instruction::A { addr, mode };
            &&& ea < MEMORY_SIZE ==> s.executed(instr) == Ok::<CpuView, CpuError>(
                CpuView {
                    acc: wrapped(s.acc + s.memory[ea as int]),
                    carry: s.acc + s.memory[ea as int] > 0xFFFF,
                    overflow: beyond_signed(signed(s.acc) + signed(s.memory[ea as int])),
                    ..s
                }.counted(),
            )
            &&& ea >= MEMORY_SIZE ==> s.executed(instr) == Err::<CpuView, CpuError>(
                CpuError::MemoryOutOfBounds(ea),
            )
        }),
{
}

/// What `S` does, as a whole: the accumulator becomes the difference modulo
/// 2^16, carry tells whether a borrow was needed, which is when the
/// accumulator was below the word, overflow whether the signed difference
/// left the range of a signed word, both counters go up by one, and
/// everything else stays. Where the effective address lies outside memory,
/// the instruction fails with that address.
pub proof fn lemma_subtract(s: CpuView, addr: u16, mode: AddressingMode)
    requires
        !s.halted,
    ensures
        ({
            let ea = s.effective_address(addr, mode);
            let instr = Instruction::S { addr, mode };
            &&& ea < MEMORY_SIZE ==> s.executed(instr) == Ok::<CpuView, CpuError>(
                CpuView {
                    acc: wrapped(s.acc - s.memory[ea as int]),
                    carry: s.acc < s.memory[ea as int],
                    overflow: beyond_signed(signed(s.acc) - signed(s.memory[ea as int])),
                    ..s
                }.counted(),
            )
            &&& ea >= MEMORY_SIZE ==> s.executed(instr) == Err::<CpuView, CpuError>(
                CpuError::MemoryOutOfBounds(ea),
            )
        }),
{
}

/// What `BSC` does, as a whole. Where the condition holds and the address
/// lies inside memory, the instruction address becomes that address; where
/// the condition holds and the address lies outside memory, the instruction
/// fails; where the condition does not hold, the instruction address stays,
/// whatever the address is. Nothing else changes but the counters. The
/// conditions read the accumulator as the signed number that it is.
pub proof fn lemma_branch(s: CpuView, addr: u16, condition: BranchCondition)
    requires
        !s.halted,
    ensures
        ({
            let instr = Instruction::BSC { addr, condition };
            &&& s.holds(condition) && addr < MEMORY_SIZE ==> s.executed(instr) == Ok::<
                CpuView,
                CpuError,
            >(CpuView { iar: addr, ..s }.counted())
            &&& s.holds(condition) && addr >= MEMORY_SIZE ==> s.executed(instr) == Err::<
                CpuView,
                CpuError,
            >(CpuError::IarOutOfBounds(addr))
            &&& !s.holds(condition) ==> s.executed(instr) == Ok::<CpuView, CpuError>(s.counted())
        }),
        s.holds(BranchCondition::Zero) == (s.acc == 0),
        s.holds(BranchCondition::NonZero) == (s.acc != 0),
        s.holds(BranchCondition::Positive) == (0 < s.acc < 0x8000),
        s.holds(BranchCondition::Negative) == (s.acc >= 0x8000),
        s.holds(BranchCondition::Overflow) == s.overflow,
        s.holds(BranchCondition::Carry) == s.carry,
{
}

/// What an executed instruction leaves alone: the extension register
/// always; the flags unless it is `A` or `S`; the halted state unless it is
/// `WAIT`; the instruction address unless it is a branch; memory unless it
/// stores; the accumulator unless it loads, computes or shifts. Both counters
/// go up by one.
pub proof fn lemma_executed_keeps(s: CpuView, instr: Instruction)
    requires
        s.executed(instr) is Ok,
    ensures
        ({
            let next = s.executed(instr)->Ok_0;
            &&& next.ext == s.ext
            &&& !(instr is A || instr is S) ==> next.carry == s.carry && next.overflow
                == s.overflow
            &&& !(instr is WAIT) ==> !next.halted
            &&& !(instr is BSC || instr is BSI) ==> next.iar == s.iar
            &&& !(instr is STO || instr is STX || instr is LDX || instr is BSI) ==> next.memory
                == s.memory
            &&& !(instr is LD || instr is A || instr is S || instr is AND || instr is OR
                || instr is SLA || instr is SRA) ==> next.acc == s.acc
            &&& next.instruction_count == (s.instruction_count + 1) as u64
            &&& next.cycle_count == (s.cycle_count + 1) as u64
        }),
{
}

/// An instruction leaves the view of a state well formed.
pub proof fn lemma_executed_wf(s: CpuView, instr: Instruction)
    requires
        s.wf(),
    ensures
        s.executed(instr) matches Ok(next) ==> next.wf(),
{
}

} // verus!
