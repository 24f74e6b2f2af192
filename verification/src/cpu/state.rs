//! The processor state: registers, flags, memory and counters.
//!
//! Contracts speak of a state through its view, a [`CpuView`]: plain
//! values and a sequence of words.

use crate::text::{hex4, push_hex4, push_text};
use crate::word::{sign_rule_add, sign_rule_sub};
use vstd::prelude::*;
use vstd::slice::slice_subrange;

verus! {

/// Number of 16-bit words of memory.
pub const MEMORY_SIZE: usize = 4096;

/// Address of the word that is the first index register.
pub const XR1_ADDR: u16 = 0x0001;

/// Address of the word that is the second index register.
pub const XR2_ADDR: u16 = 0x0002;

/// Address of the word that is the third index register.
pub const XR3_ADDR: u16 = 0x0003;

/// Address at which a fresh or reset processor starts to execute.
pub const PROGRAM_START: u16 = 0x0010;

/// What can go wrong while the processor runs.
#[derive(Debug, Clone, PartialEq, Eq)]
pub enum CpuError {
    /// A word outside memory was addressed.
    MemoryOutOfBounds(u16),
    /// The processor is halted.
    Halted,
    /// Reserved for a word that is no instruction.
    InvalidInstruction(u16),
    /// The instruction address was to leave memory.
    IarOutOfBounds(u16),
}

impl CpuError {
    /// The text of this error.
    pub open spec fn spec_message(self) -> Seq<char> {
        match self {
            CpuError::MemoryOutOfBounds(addr) => "Memory access out of bounds: 0x"@ + hex4(addr),
            CpuError::Halted => "CPU is halted"@,
            CpuError::InvalidInstruction(addr) => "Invalid instruction at 0x"@ + hex4(addr),
            CpuError::IarOutOfBounds(addr) => "Program counter out of bounds: 0x"@ + hex4(addr),
        }
    }

    /// The text of this error, as it is shown to a user.
    pub fn message(&self) -> (s: String)
        ensures
            s@ == self.spec_message(),
    {
        let mut s = String::new();
        match self {
            CpuError::MemoryOutOfBounds(addr) => {
                push_text(&mut s, "Memory access out of bounds: 0x");
                push_hex4(&mut s, *addr);
            },
            CpuError::Halted => {
                push_text(&mut s, "CPU is halted");
            },
            CpuError::InvalidInstruction(addr) => {
                push_text(&mut s, "Invalid instruction at 0x");
                push_hex4(&mut s, *addr);
            },
            CpuError::IarOutOfBounds(addr) => {
                push_text(&mut s, "Program counter out of bounds: 0x");
                push_hex4(&mut s, *addr);
            },
        }
        s
    }
}

/// The mathematical content of a processor state.
#[verifier::ext_equal]
pub struct CpuView {
    /// Accumulator.
    pub acc: u16,
    /// Extension register.
    pub ext: u16,
    /// Instruction address register.
    pub iar: u16,
    /// Carry flag.
    pub carry: bool,
    /// Overflow flag.
    pub overflow: bool,
    /// The words of memory; the index registers are the words 1, 2 and 3.
    pub memory: Seq<u16>,
    /// Whether the processor is halted.
    pub halted: bool,
    /// Number of cycles since the last reset.
    pub cycle_count: u64,
    /// Number of instructions executed since the last reset.
    pub instruction_count: u64,
}

impl CpuView {
    /// What holds of the view of every state: memory has its full size and
    /// the instruction address lies in it.
    pub open spec fn wf(self) -> bool {
        &&& self.memory.len() == MEMORY_SIZE
        &&& self.iar < MEMORY_SIZE
    }

    /// Memory in which every word is zero.
    pub open spec fn blank_memory() -> Seq<u16> {
        Seq::new(MEMORY_SIZE as nat, |i: int| 0u16)
    }

    /// This state after a reset: registers, flags and counters cleared, the
    /// instruction address at the program start, memory kept.
    pub open spec fn reset(self) -> CpuView {
        CpuView {
            acc: 0,
            ext: 0,
            iar: PROGRAM_START,
            carry: false,
            overflow: false,
            memory: self.memory,
            halted: false,
            cycle_count: 0,
            instruction_count: 0,
        }
    }

    /// The state of a fresh processor.
    pub open spec fn initial() -> CpuView {
        CpuView {
            acc: 0,
            ext: 0,
            iar: PROGRAM_START,
            carry: false,
            overflow: false,
            memory: Self::blank_memory(),
            halted: false,
            cycle_count: 0,
            instruction_count: 0,
        }
    }

    /// The first index register.
    pub open spec fn xr1(self) -> u16 {
        self.memory[XR1_ADDR as int]
    }

    /// The second index register.
    pub open spec fn xr2(self) -> u16 {
        self.memory[XR2_ADDR as int]
    }

    /// The third index register.
    pub open spec fn xr3(self) -> u16 {
        self.memory[XR3_ADDR as int]
    }

    /// This state with the word at `addr` set to `value`.
    pub open spec fn store(self, addr: u16, value: u16) -> CpuView {
        CpuView { memory: self.memory.update(addr as int, value), ..self }
    }

    /// This state with `words` written from `start` on.
    pub open spec fn load(self, start: u16, words: Seq<u16>) -> CpuView {
        CpuView {
            memory: self.memory.subrange(0, start as int) + words + self.memory.subrange(
                start + words.len(),
                MEMORY_SIZE as int,
            ),
            ..self
        }
    }
}

/// The processor: registers, flags, memory and counters.
#[derive(Debug)]
pub struct CpuState {
    acc: u16,
    ext: u16,
    iar: u16,
    carry: bool,
    overflow: bool,
    memory: [u16; MEMORY_SIZE],
    halted: bool,
    cycle_count: u64,
    instruction_count: u64,
}

impl View for CpuState {
    type V = CpuView;

    closed spec fn view(&self) -> CpuView {
        CpuView {
            acc: self.acc,
            ext: self.ext,
            iar: self.iar,
            carry: self.carry,
            overflow: self.overflow,
            memory: self.memory@,
            halted: self.halted,
            cycle_count: self.cycle_count,
            instruction_count: self.instruction_count,
        }
    }
}

impl Clone for CpuState {
    fn clone(&self) -> (r: Self)
        ensures
            r@ == self@,
    {
        proof {
            use_type_invariant(self);
        }
        Self {
            acc: self.acc,
            ext: self.ext,
            iar: self.iar,
            carry: self.carry,
            overflow: self.overflow,
            memory: self.memory,
            halted: self.halted,
            cycle_count: self.cycle_count,
            instruction_count: self.instruction_count,
        }
    }
}

impl Default for CpuState {
    fn default() -> (r: Self)
        ensures
            r@ == CpuView::initial(),
    {
        Self::new()
    }
}

impl CpuState {
    /// What holds of every state: the instruction address lies inside
    /// memory.
    #[verifier::type_invariant]
    pub(crate) closed spec fn inv(self) -> bool {
        self.iar < MEMORY_SIZE
    }

    /// The view of a state that keeps its invariant is well formed.
    pub(crate) proof fn lemma_wf(self)
        requires
            self.inv(),
        ensures
            self@.wf(),
    {
    }

    /// A fresh processor: everything zero, the instruction address at the
    /// program start.
    pub fn new() -> (r: Self)
        ensures
            r@ == CpuView::initial(),
    {
        let r = Self {
            acc: 0,
            ext: 0,
            iar: PROGRAM_START,
            carry: false,
            overflow: false,
            memory: [0;MEMORY_SIZE],
            halted: false,
            cycle_count: 0,
            instruction_count: 0,
        };
        r
    }

    /// Clears registers, flags, counters and the halted state, and puts the
    /// instruction address at the program start. Memory stays as it is.
    pub fn reset(&mut self)
        ensures
            final(self)@ == old(self)@.reset(),
    {
        proof {
            use_type_invariant(&*self);
        }
        self.acc = 0;
        self.ext = 0;
        self.iar = PROGRAM_START;
        self.carry = false;
        self.overflow = false;
        self.halted = false;
        self.cycle_count = 0;
        self.instruction_count = 0;
    }

    /// Resets the processor and clears all memory.
    pub fn hard_reset(&mut self)
        ensures
            final(self)@ == CpuView::initial(),
    {
        self.reset();
        self.memory = [0;MEMORY_SIZE];
    }

    // ----- Registers -----

    /// The accumulator.
    pub fn read_acc(&self) -> (r: u16)
        ensures
            r == self@.acc,
            self@.wf(),
    {
        proof {
            use_type_invariant(self);
        }
        self.acc
    }

    /// Sets the accumulator.
    pub fn write_acc(&mut self, value: u16)
        ensures
            final(self)@ == (CpuView { acc: value, ..old(self)@ }),
            final(self)@.wf(),
    {
        proof {
            use_type_invariant(&*self);
        }
        self.acc = value;
    }

    /// The extension register.
    pub fn read_ext(&self) -> (r: u16)
        ensures
            r == self@.ext,
            self@.wf(),
    {
        proof {
            use_type_invariant(self);
        }
        self.ext
    }

    /// Sets the extension register.
    pub fn write_ext(&mut self, value: u16)
        ensures
            final(self)@ == (CpuView { ext: value, ..old(self)@ }),
            final(self)@.wf(),
    {
        proof {
            use_type_invariant(&*self);
        }
        self.ext = value;
    }

    /// The instruction address register. It always lies inside memory.
    pub fn iar(&self) -> (r: u16)
        ensures
            r == self@.iar,
            r < MEMORY_SIZE,
            self@.wf(),
    {
        proof {
            use_type_invariant(self);
        }
        self.iar
    }

    /// Sets the instruction address register to `addr`, which must lie
    /// inside memory; otherwise nothing changes.
    pub fn set_iar(&mut self, addr: u16) -> (r: Result<(), CpuError>)
        ensures
            addr < MEMORY_SIZE ==> r is Ok && final(self)@ == (CpuView { iar: addr, ..old(self)@ }),
            addr >= MEMORY_SIZE ==> r == Err::<(), CpuError>(CpuError::IarOutOfBounds(addr))
                && final(self)@ == old(self)@,
            final(self)@.wf(),
    {
        proof {
            use_type_invariant(&*self);
        }
        if addr as usize >= MEMORY_SIZE {
            return Err(CpuError::IarOutOfBounds(addr));
        }
        self.iar = addr;
        Ok(())
    }

    /// Moves the instruction address register on by one word. At the last
    /// word of memory this fails, and nothing changes.
    pub fn increment_iar(&mut self) -> (r: Result<(), CpuError>)
        ensures
            old(self)@.iar + 1 < MEMORY_SIZE ==> r is Ok && final(self)@ == (CpuView {
                iar: (old(self)@.iar + 1) as u16,
                ..old(self)@
            }),
            old(self)@.iar + 1 >= MEMORY_SIZE ==> r == Err::<(), CpuError>(
                CpuError::IarOutOfBounds((old(self)@.iar + 1) as u16),
            ) && final(self)@ == old(self)@,
            final(self)@.wf(),
    {
        proof {
            use_type_invariant(&*self);
        }
        let next = self.iar.wrapping_add(1);
        self.set_iar(next)
    }

    /// The first index register, which is the word 1 of memory.
    pub fn read_xr1(&self) -> (r: u16)
        ensures
            r == self@.xr1(),
            self@.wf(),
    {
        proof {
            use_type_invariant(self);
        }
        self.memory[XR1_ADDR as usize]
    }

    /// Sets the first index register, which is the word 1 of memory.
    pub fn write_xr1(&mut self, value: u16)
        ensures
            final(self)@ == old(self)@.store(XR1_ADDR, value),
            final(self)@.wf(),
    {
        proof {
            use_type_invariant(&*self);
        }
        self.memory[XR1_ADDR as usize] = value;
    }

    /// The second index register, which is the word 2 of memory.
    pub fn read_xr2(&self) -> (r: u16)
        ensures
            r == self@.xr2(),
            self@.wf(),
    {
        proof {
            use_type_invariant(self);
        }
        self.memory[XR2_ADDR as usize]
    }

    /// Sets the second index register, which is the word 2 of memory.
    pub fn write_xr2(&mut self, value: u16)
        ensures
            final(self)@ == old(self)@.store(XR2_ADDR, value),
            final(self)@.wf(),
    {
        proof {
            use_type_invariant(&*self);
        }
        self.memory[XR2_ADDR as usize] = value;
    }

    /// The third index register, which is the word 3 of memory.
    pub fn read_xr3(&self) -> (r: u16)
        ensures
            r == self@.xr3(),
            self@.wf(),
    {
        proof {
            use_type_invariant(self);
        }
        self.memory[XR3_ADDR as usize]
    }

    /// Sets the third index register, which is the word 3 of memory.
    pub fn write_xr3(&mut self, value: u16)
        ensures
            final(self)@ == old(self)@.store(XR3_ADDR, value),
            final(self)@.wf(),
    {
        proof {
            use_type_invariant(&*self);
        }
        self.memory[XR3_ADDR as usize] = value;
    }

    // ----- Memory -----

    /// The word at `addr`, which must lie inside memory.
    pub fn read_word(&self, addr: u16) -> (r: Result<u16, CpuError>)
        ensures
            addr < MEMORY_SIZE ==> r == Ok::<u16, CpuError>(self@.memory[addr as int]),
            addr >= MEMORY_SIZE ==> r == Err::<u16, CpuError>(CpuError::MemoryOutOfBounds(addr)),
            self@.wf(),
    {
        proof {
            use_type_invariant(self);
        }
        if addr as usize >= MEMORY_SIZE {
            return Err(CpuError::MemoryOutOfBounds(addr));
        }
        Ok(self.memory[addr as usize])
    }

    /// Sets the word at `addr`, which must lie inside memory; otherwise
    /// nothing changes.
    pub fn write_word(&mut self, addr: u16, value: u16) -> (r: Result<(), CpuError>)
        ensures
            addr < MEMORY_SIZE ==> r is Ok && final(self)@ == old(self)@.store(addr, value),
            addr >= MEMORY_SIZE ==> r == Err::<(), CpuError>(CpuError::MemoryOutOfBounds(addr))
                && final(self)@ == old(self)@,
            final(self)@.wf(),
    {
        proof {
            use_type_invariant(&*self);
        }
        if addr as usize >= MEMORY_SIZE {
            return Err(CpuError::MemoryOutOfBounds(addr));
        }
        self.memory[addr as usize] = value;
        Ok(())
    }

    /// Copies `data` into memory from `start_addr` on. Where `data` does not
    /// fit between `start_addr` and the end of memory, nothing changes.
    pub fn load_program(&mut self, start_addr: u16, data: &[u16]) -> (r: Result<(), CpuError>)
        ensures
            start_addr + data@.len() <= MEMORY_SIZE ==> r is Ok && final(self)@ == old(self)@.load(
                start_addr,
                data@,
            ),
            start_addr + data@.len() > MEMORY_SIZE ==> r == Err::<(), CpuError>(
                CpuError::MemoryOutOfBounds(start_addr),
            ) && final(self)@ == old(self)@,
            final(self)@.wf(),
    {
        proof {
            use_type_invariant(&*self);
        }
        let start = start_addr as usize;
        if start > MEMORY_SIZE || data.len() > MEMORY_SIZE - start {
            return Err(CpuError::MemoryOutOfBounds(start_addr));
        }
        let mut i: usize = 0;
        while i < data.len()
            invariant
                i <= data@.len(),
                start == start_addr,
                start + data@.len() <= MEMORY_SIZE,
                self.iar < MEMORY_SIZE,
                (CpuView { memory: old(self)@.memory, ..self@ }) == old(self)@,
                forall|k: int|
                    0 <= k < MEMORY_SIZE ==> #[trigger] self@.memory[k] == if start <= k < start
                        + i {
                        data@[k - start]
                    } else {
                        old(self)@.memory[k]
                    },
            decreases data@.len() - i,
        {
            let ghost before = self@.memory;
            self.memory[start + i] = data[i];
            assert(self@.memory == before.update(start + i, data@[i as int]));
            i += 1;
        }
        Ok(())
    }

    // ----- Flags -----

    /// The carry flag.
    pub fn carry(&self) -> (r: bool)
        ensures
            r == self@.carry,
            self@.wf(),
    {
        proof {
            use_type_invariant(self);
        }
        self.carry
    }

    /// Sets the carry flag.
    pub fn set_carry(&mut self, value: bool)
        ensures
            final(self)@ == (CpuView { carry: value, ..old(self)@ }),
            final(self)@.wf(),
    {
        proof {
            use_type_invariant(&*self);
        }
        self.carry = value;
    }

    /// The overflow flag.
    pub fn overflow(&self) -> (r: bool)
        ensures
            r == self@.overflow,
            self@.wf(),
    {
        proof {
            use_type_invariant(self);
        }
        self.overflow
    }

    /// Sets the overflow flag.
    pub fn set_overflow(&mut self, value: bool)
        ensures
            final(self)@ == (CpuView { overflow: value, ..old(self)@ }),
            final(self)@.wf(),
    {
        proof {
            use_type_invariant(&*self);
        }
        self.overflow = value;
    }

    /// Sets both flags for an addition of `a` and `b` that gave `result`:
    /// carry where the result is below the first operand, overflow by the
    /// rule of signs.
    pub fn update_flags_add(&mut self, a: u16, b: u16, result: u16)
        ensures
            final(self)@ == (CpuView {
                carry: result < a,
                overflow: sign_rule_add(a, b, result),
                ..old(self)@
            }),
            final(self)@.wf(),
    {
        proof {
            use_type_invariant(&*self);
        }
        self.carry = result < a;
        let a_sign = (a & 0x8000) != 0;
        let b_sign = (b & 0x8000) != 0;
        let r_sign = (result & 0x8000) != 0;
        self.overflow = (a_sign == b_sign) && (a_sign != r_sign);
    }

    /// Sets both flags for a subtraction of `b` from `a` that gave `result`:
    /// carry where a borrow was needed, overflow by the rule of signs.
    pub fn update_flags_sub(&mut self, a: u16, b: u16, result: u16)
        ensures
            final(self)@ == (CpuView {
                carry: a < b,
                overflow: sign_rule_sub(a, b, result),
                ..old(self)@
            }),
            final(self)@.wf(),
    {
        proof {
            use_type_invariant(&*self);
        }
        self.carry = a < b;
        let a_sign = (a & 0x8000) != 0;
        let b_sign = (b & 0x8000) != 0;
        let r_sign = (result & 0x8000) != 0;
        self.overflow = (a_sign != b_sign) && (a_sign != r_sign);
    }

    // ----- Execution state -----

    /// Whether the processor is halted.
    pub fn is_halted(&self) -> (r: bool)
        ensures
            r == self@.halted,
            self@.wf(),
    {
        proof {
            use_type_invariant(self);
        }
        self.halted
    }

    /// Halts the processor.
    pub fn halt(&mut self)
        ensures
            final(self)@ == (CpuView { halted: true, ..old(self)@ }),
            final(self)@.wf(),
    {
        proof {
            use_type_invariant(&*self);
        }
        self.halted = true;
    }

    /// Lets a halted processor go on.
    pub fn resume(&mut self)
        ensures
            final(self)@ == (CpuView { halted: false, ..old(self)@ }),
            final(self)@.wf(),
    {
        proof {
            use_type_invariant(&*self);
        }
        self.halted = false;
    }

    /// Number of cycles since the last reset.
    pub fn cycle_count(&self) -> (r: u64)
        ensures
            r == self@.cycle_count,
            self@.wf(),
    {
        proof {
            use_type_invariant(self);
        }
        self.cycle_count
    }

    /// Number of instructions executed since the last reset.
    pub fn instruction_count(&self) -> (r: u64)
        ensures
            r == self@.instruction_count,
            self@.wf(),
    {
        proof {
            use_type_invariant(self);
        }
        self.instruction_count
    }

    /// Counts one cycle.
    pub fn tick(&mut self)
        requires
            old(self)@.cycle_count < u64::MAX,
        ensures
            final(self)@ == (CpuView {
                cycle_count: (old(self)@.cycle_count + 1) as u64,
                ..old(self)@
            }),
            final(self)@.wf(),
    {
        proof {
            use_type_invariant(&*self);
        }
        self.cycle_count += 1;
    }

    /// Counts one instruction.
    pub fn count_instruction(&mut self)
        requires
            old(self)@.instruction_count < u64::MAX,
        ensures
            final(self)@ == (CpuView {
                instruction_count: (old(self)@.instruction_count + 1) as u64,
                ..old(self)@
            }),
            final(self)@.wf(),
    {
        proof {
            use_type_invariant(&*self);
        }
        self.instruction_count += 1;
    }

    // ----- Inspection -----

    /// All of memory.
    pub fn memory(&self) -> (r: &[u16; MEMORY_SIZE])
        ensures
            r@ == self@.memory,
            self@.wf(),
    {
        proof {
            use_type_invariant(self);
        }
        &self.memory
    }

    /// The `len` words of memory from `start` on, which must all lie inside
    /// memory.
    pub fn memory_slice(&self, start: u16, len: usize) -> (r: Result<&[u16], CpuError>)
        ensures
            start + len <= MEMORY_SIZE ==> r is Ok && r.unwrap()@ == self@.memory.subrange(
                start as int,
                start + len,
            ),
            start + len > MEMORY_SIZE ==> r == Err::<&[u16], CpuError>(
                CpuError::MemoryOutOfBounds(start),
            ),
            self@.wf(),
    {
        proof {
            use_type_invariant(self);
        }
        let from = start as usize;
        if from > MEMORY_SIZE || len > MEMORY_SIZE - from {
            return Err(CpuError::MemoryOutOfBounds(start));
        }
        Ok(slice_subrange(self.memory.as_slice(), from, from + len))
    }
}

} // verus!
