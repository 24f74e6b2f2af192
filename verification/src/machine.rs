//! Driving the processor: one step from a word of program, a run of many
//! steps, and the way from a source text into memory.

use crate::assembler::{
    assembled, lines, Assembler, AssemblerError, AssemblerFault, LineView, ProgramView,
};
use crate::cpu::state::{CpuError, CpuState, CpuView, MEMORY_SIZE, PROGRAM_START};
use crate::encoding::{decode_instruction, decoding};
use crate::text::{
    chars_of, find_char, hex4, lemma_run_len_bound, other_than, parse_unsigned, push_hex4,
    push_text, run_len, split_tokens, string_of, to_uppercase, tokens, trim_range, trimmed,
    unsigned_value, uppercase_of,
};
use crate::word::wrapped;
use vstd::prelude::*;

verus! {

/// What can go wrong on the way from a text or a word to its execution:
/// an error of the assembler or one of the processor.
#[derive(Debug, Clone, PartialEq, Eq)]
pub enum MachineError {
    /// The text could not be assembled, or the word could not be decoded.
    Assembly(AssemblerError),
    /// The processor refused.
    Cpu(CpuError),
}

/// The mathematical content of a [`MachineError`].
pub enum MachineFault {
    Assembly(AssemblerFault),
    Cpu(CpuError),
}

impl View for MachineError {
    type V = MachineFault;

    open spec fn view(&self) -> MachineFault {
        match self {
            MachineError::Assembly(e) => MachineFault::Assembly(e@),
            MachineError::Cpu(e) => MachineFault::Cpu(*e),
        }
    }
}

impl MachineError {
    /// The text of this error.
    pub open spec fn spec_message(self) -> Seq<char> {
        match self {
            MachineError::Assembly(e) => e.spec_message(),
            MachineError::Cpu(e) => e.spec_message(),
        }
    }

    /// The text of this error, as it is shown to a user.
    pub fn message(&self) -> (r: String)
        ensures
            r@ == self.spec_message(),
    {
        match self {
            MachineError::Assembly(e) => e.message(),
            MachineError::Cpu(e) => e.message(),
        }
    }
}

/// The fault with which a call ended, if it ended with one.
pub open spec fn fault_of<T>(r: Result<T, MachineError>) -> Option<MachineFault> {
    match r {
        Ok(_) => None,
        Err(e) => Some(e@),
    }
}

impl CpuView {
    /// This state with the instruction address moved on by one word, or
    /// the error where it stands at the last word of memory.
    pub open spec fn advanced(self) -> Result<CpuView, CpuError> {
        if self.iar + 1 < MEMORY_SIZE {
            Ok(CpuView { iar: (self.iar + 1) as u16, ..self })
        } else {
            Err(CpuError::IarOutOfBounds((self.iar + 1) as u16))
        }
    }

    /// One step: the word `opcode` is decoded and executed, and then the
    /// instruction address moves on by one word, whatever the instruction
    /// was. The result is the state that the step leaves and the fault at
    /// which it stopped, if any: a word that does not decode and an
    /// instruction that fails leave the state as it was; where only the
    /// instruction address cannot move on, the instruction has taken
    /// effect.
    pub open spec fn stepped(self, opcode: u16) -> (CpuView, Option<MachineFault>) {
        match decoding(opcode) {
            Err(f) => (self, Some(MachineFault::Assembly(f))),
            Ok(instr) => match self.executed(instr) {
                Err(e) => (self, Some(MachineFault::Cpu(e))),
                Ok(next) => match next.advanced() {
                    Err(e) => (next, Some(MachineFault::Cpu(e))),
                    Ok(moved) => (moved, None),
                },
            },
        }
    }

    /// A run of at most `budget` steps, each on the word at the instruction
    /// address. The run ends before a step where the processor is halted
    /// or the budget is used up, and behind a step that stopped at a fault.
    pub open spec fn ran(self, budget: nat) -> (CpuView, Option<MachineFault>)
        decreases budget,
    {
        if budget == 0 || self.halted {
            (self, None)
        } else {
            let (next, fault) = self.stepped(self.memory[self.iar as int]);
            if fault is Some {
                (next, fault)
            } else {
                next.ran((budget - 1) as nat)
            }
        }
    }

    /// Whether both counters have room for a run of at most `budget` steps:
    /// wherever the run takes a step, neither counter is full. A run that
    /// halts or meets a fault before a counter is full has room, whatever
    /// its budget.
    pub open spec fn has_room(self, budget: nat) -> bool {
        forall|k: nat|
            k < budget && !(#[trigger] self.ran(k)).0.halted && self.ran(k).1 is None
                ==> self.ran(k).0.cycle_count < u64::MAX && self.ran(k).0.instruction_count
                < u64::MAX
    }
}

/// One line of the listing of a loaded program.
#[derive(Debug, Clone)]
pub struct ListingRow {
    /// The address at which the instruction was loaded.
    pub address: u16,
    /// The word of the instruction, in base sixteen behind `0x`.
    pub opcode: String,
    /// The text of the line.
    pub source: String,
}

/// The mathematical content of a [`ListingRow`].
pub struct RowView {
    pub address: u16,
    pub opcode: Seq<char>,
    pub source: Seq<char>,
}

impl View for ListingRow {
    type V = RowView;

    open spec fn view(&self) -> RowView {
        RowView { address: self.address, opcode: self.opcode@, source: self.source@ }
    }
}

/// The row for a line of a listing whose addresses are all moved on by
/// `offset`, modulo 2^16.
pub open spec fn moved_row(line: LineView, offset: u16) -> RowView {
    RowView {
        address: wrapped(line.address + offset),
        opcode: "0x"@ + hex4(line.opcode),
        source: line.source,
    }
}

/// The rows for the listing of `program` once it is loaded at `start_addr`
/// in place of the address that it was assembled for.
pub open spec fn moved_listing(program: ProgramView, start_addr: u16) -> Seq<RowView> {
    Seq::new(
        program.listing.len(),
        |i: int| moved_row(program.listing[i], wrapped(start_addr - program.start_addr)),
    )
}

/// What loading the source text `source` at `start_addr` does to the state
/// `cpu`: the state with the program in memory and the rows of its listing,
/// or the fault, on which the state stays as it is.
pub open spec fn loaded_source(cpu: CpuView, source: Seq<char>, start_addr: u16) -> Result<
    (CpuView, Seq<RowView>),
    MachineFault,
> {
    match assembled(source, PROGRAM_START) {
        Err(f) => Err(MachineFault::Assembly(f)),
        Ok(program) => if start_addr + program.code.len() > MEMORY_SIZE {
            Err(MachineFault::Cpu(CpuError::MemoryOutOfBounds(start_addr)))
        } else {
            Ok((cpu.load(start_addr, program.code), moved_listing(program, start_addr)))
        },
    }
}

/// Whether the text `s` begins with `DATA`.
pub open spec fn begins_with_data(s: Seq<char>) -> bool {
    s.len() >= 4 && s[0] == 'D' && s[1] == 'A' && s[2] == 'T' && s[3] == 'A'
}

/// The address and the value that a line gives to memory, if it gives
/// any: the line, trimmed, begins with `DATA` in either case, and its second
/// and third token are numbers of 16 bits in base ten. The line is taken as
/// it stands, a comment is not looked for.
pub open spec fn datum_of_line(raw: Seq<char>) -> Option<(u16, u16)> {
    let text = trimmed(raw);
    let parts = tokens(text);
    if begins_with_data(uppercase_of(text)) && parts.len() >= 3 {
        match (unsigned_value(parts[1], 10, 0xFFFF), unsigned_value(parts[2], 10, 0xFFFF)) {
            (Some(addr), Some(value)) => Some((addr as u16, value as u16)),
            _ => None,
        }
    } else {
        None
    }
}

/// The state after the data of the lines `ls` were put into memory, line by
/// line. A line whose address lies outside memory puts nothing.
pub open spec fn with_data(cpu: CpuView, ls: Seq<Seq<char>>) -> CpuView
    decreases ls.len(),
{
    if ls.len() == 0 {
        cpu
    } else {
        let before = with_data(cpu, ls.drop_last());
        match datum_of_line(ls.last()) {
            Some((addr, value)) => if addr < MEMORY_SIZE {
                before.store(addr, value)
            } else {
                before
            },
            None => before,
        }
    }
}

/// The lines of a text are its first line and, behind a line feed, the
/// lines of the rest.
proof fn lemma_lines_unfold(s: Seq<char>)
    ensures
        ({
            let n = run_len(s, other_than('\n'));
            lines(s) == if n >= s.len() {
                seq![s]
            } else {
                seq![s.take(n as int)] + lines(s.skip(n as int + 1))
            }
        }),
{
}

impl CpuState {
    /// Decodes and executes the word `opcode`, then moves the instruction
    /// address on by one word.
    pub fn step(&mut self, opcode: u16) -> (r: Result<(), MachineError>)
        requires
            !old(self)@.halted ==> old(self)@.cycle_count < u64::MAX
                && old(self)@.instruction_count < u64::MAX,
        ensures
            final(self)@ == old(self)@.stepped(opcode).0,
            fault_of(r) == old(self)@.stepped(opcode).1,
            final(self)@.wf(),
    {
        proof {
            use_type_invariant(&*self);
            self.lemma_wf();
        }
        let instr = match decode_instruction(opcode) {
            Ok(instr) => instr,
            Err(e) => {
                return Err(MachineError::Assembly(e));
            },
        };
        match self.execute(&instr) {
            Ok(()) => {},
            Err(e) => {
                return Err(MachineError::Cpu(e));
            },
        }
        match self.increment_iar() {
            Ok(()) => Ok(()),
            Err(e) => Err(MachineError::Cpu(e)),
        }
    }

    /// Runs the program in memory from the instruction address on, for at
    /// most `max_cycles` steps: until the processor halts, a step fails or
    /// the steps are used up. The counters need room only where a step is
    /// taken; a budget above what they hold is in order where the run ends
    /// before one of them is full.
    pub fn run(&mut self, max_cycles: u64) -> (r: Result<(), MachineError>)
        requires
            old(self)@.has_room(max_cycles as nat),
        ensures
            final(self)@ == old(self)@.ran(max_cycles as nat).0,
            fault_of(r) == old(self)@.ran(max_cycles as nat).1,
            final(self)@.wf(),
    {
        proof {
            use_type_invariant(&*self);
            self.lemma_wf();
        }
        let mut left = max_cycles;
        while left > 0
            invariant
                self@.wf(),
                self@.has_room(left as nat),
                old(self)@.ran(max_cycles as nat) == self@.ran(left as nat),
            decreases left,
        {
            if self.is_halted() {
                return Ok(());
            }
            proof {
                lemma_room_step(self@, left as nat);
            }
            let iar = self.iar();
            let opcode = match self.read_word(iar) {
                Ok(opcode) => opcode,
                Err(e) => {
                    return Err(MachineError::Cpu(e));
                },
            };
            match self.step(opcode) {
                Ok(()) => {},
                Err(e) => {
                    return Err(e);
                },
            }
            left -= 1;
        }
        Ok(())
    }

    /// Puts the data of a source text into memory: each line that begins
    /// with `DATA` and goes on with an address and a value in base ten sets
    /// that word. Lines of another shape, and addresses outside memory, are
    /// passed over.
    pub fn load_data(&mut self, source: &str)
        ensures
            final(self)@ == with_data(old(self)@, lines(source@)),
            final(self)@.wf(),
    {
        proof {
            use_type_invariant(&*self);
            self.lemma_wf();
        }
        let chars = chars_of(source);
        let n = chars.len();
        let mut pos: usize = 0;
        let ghost mut done: Seq<Seq<char>> = Seq::empty();
        assert(chars@.subrange(0, n as int) == source@);
        assert(done + lines(source@) == lines(source@));
        loop
            invariant_except_break
                done + lines(chars@.subrange(pos as int, n as int)) == lines(source@),
            invariant
                pos <= n == chars.len(),
                chars@ == source@,
                self@ == with_data(old(self)@, done),
                self@.wf(),
            ensures
                done == lines(source@),
            decreases n - pos,
        {
            let ghost rest = chars@.subrange(pos as int, n as int);
            let end = find_char(&chars, pos, n, '\n');
            let (a, b) = trim_range(&chars, pos, end);
            let text = string_of(&chars, a, b);
            let upper = chars_of(to_uppercase(text.as_str()).as_str());
            let parts = split_tokens(&chars, a, b);
            proof {
                lemma_lines_unfold(rest);
                lemma_run_len_bound(rest, other_than('\n'));
                assert(rest.take(end - pos) == chars@.subrange(pos as int, end as int));
                if end < n {
                    assert(rest.skip(end - pos + 1) == chars@.subrange(end + 1, n as int));
                }
                let line = chars@.subrange(pos as int, end as int);
                assert((done.push(line)).drop_last() == done);
            }
            if upper.len() >= 4 && upper[0] == 'D' && upper[1] == 'A' && upper[2] == 'T'
                && upper[3] == 'A' && parts.len() >= 3 {
                let first = chars_of(parts[1].as_str());
                let second = chars_of(parts[2].as_str());
                assert(first@.subrange(0, first@.len() as int) == first@);
                assert(second@.subrange(0, second@.len() as int) == second@);
                assert(parts.deep_view()[1] == first@ && parts.deep_view()[2] == second@);
                let addr = parse_unsigned(&first, 0, first.len(), 10, 0xFFFF);
                let value = parse_unsigned(&second, 0, second.len(), 10, 0xFFFF);
                match (addr, value) {
                    (Some(addr), Some(value)) => {
                        let _ = self.write_word(addr as u16, value as u16);
                    },
                    _ => {},
                }
            }
            proof {
                done = done.push(chars@.subrange(pos as int, end as int));
                if end >= n {
                    assert(done == lines(source@));
                } else {
                    assert(done + lines(chars@.subrange(end + 1, n as int)) == lines(source@));
                }
            }
            if end >= n {
                break ;
            }
            pos = end + 1;
        }
    }

    /// Assembles `source` with a fresh assembler and loads its words into
    /// memory from `start_addr` on. The rows of the listing carry the
    /// addresses at which the instructions were loaded.
    pub fn load_source(&mut self, source: &str, start_addr: u16) -> (r: Result<
        Vec<ListingRow>,
        MachineError,
    >)
        ensures
            match loaded_source(old(self)@, source@, start_addr) {
                Ok((cpu, rows)) => r is Ok && final(self)@ == cpu && rows_view(r.unwrap()@) == rows,
                Err(f) => fault_of(r) == Some(f) && final(self)@ == old(self)@,
            },
            final(self)@.wf(),
    {
        proof {
            use_type_invariant(&*self);
            self.lemma_wf();
        }
        let mut assembler = Assembler::new();
        let program = match assembler.assemble(source) {
            Ok(program) => program,
            Err(e) => {
                return Err(MachineError::Assembly(e));
            },
        };
        match self.load_program(start_addr, program.code.as_slice()) {
            Ok(()) => {},
            Err(e) => {
                return Err(MachineError::Cpu(e));
            },
        }
        let offset = start_addr.wrapping_sub(program.start_addr);
        let mut rows: Vec<ListingRow> = Vec::new();
        let mut i: usize = 0;
        while i < program.listing.len()
            invariant
                i <= program.listing.len(),
                offset == wrapped(start_addr - program.start_addr),
                rows@.len() == i,
                forall|k: int|
                    0 <= k < i ==> (#[trigger] rows@[k])@ == moved_row(
                        program.listing@[k]@,
                        offset,
                    ),
            decreases program.listing.len() - i,
        {
            let line = &program.listing[i];
            let mut opcode = String::new();
            push_text(&mut opcode, "0x");
            push_hex4(&mut opcode, line.opcode);
            rows.push(
                ListingRow {
                    address: line.address.wrapping_add(offset),
                    opcode,
                    source: line.source.clone(),
                },
            );
            i += 1;
        }
        Ok(rows)
    }
}

/// The views of the rows of a listing.
pub open spec fn rows_view(rows: Seq<ListingRow>) -> Seq<RowView> {
    Seq::new(rows.len(), |i: int| rows[i]@)
}

/// A halted processor does not run: whatever the budget, the run ends at
/// once, without a fault, and leaves the state as it is.
pub proof fn lemma_halted_does_not_run(s: CpuView, budget: nat)
    requires
        s.halted,
    ensures
        s.ran(budget) == (s, None::<MachineFault>),
{
}

/// A step leaves the view of a state well formed, whether it stops at a
/// fault or not.
pub proof fn lemma_stepped_wf(s: CpuView, opcode: u16)
    requires
        s.wf(),
    ensures
        s.stepped(opcode).0.wf(),
{
}

/// A run leaves the view of a state well formed, and a run that ends
/// without a fault ends halted or with its budget used up: it has executed
/// `budget` instructions unless it is halted.
pub proof fn lemma_ran(s: CpuView, budget: nat)
    requires
        s.wf(),
        s.instruction_count + budget <= u64::MAX,
        s.cycle_count + budget <= u64::MAX,
    ensures
        s.ran(budget).0.wf(),
        s.ran(budget).0.instruction_count <= s.instruction_count + budget,
        s.ran(budget).0.cycle_count <= s.cycle_count + budget,
        s.ran(budget).1 is None && !s.ran(budget).0.halted ==> s.ran(budget).0.instruction_count
            == s.instruction_count + budget,
    decreases budget,
{
    if budget > 0 && !s.halted {
        let (next, fault) = s.stepped(s.memory[s.iar as int]);
        lemma_stepped_wf(s, s.memory[s.iar as int]);
        if fault is None {
            lemma_ran(next, (budget - 1) as nat);
        }
    }
}

/// A run of `k + 1` steps from a state that is not halted is the first
/// step and then, where the step met no fault, a run of `k` steps.
proof fn lemma_ran_unfold(s: CpuView, k: nat)
    requires
        !s.halted,
    ensures
        ({
            let (next, fault) = s.stepped(s.memory[s.iar as int]);
            s.ran(k + 1) == if fault is Some {
                (next, fault)
            } else {
                next.ran(k)
            }
        }),
{
}

/// Where a run of `budget` steps has room and is about to take its first
/// step, the counters have room for that step, and the rest of the run has
/// room behind it.
proof fn lemma_room_step(s: CpuView, budget: nat)
    requires
        budget > 0,
        !s.halted,
        s.has_room(budget),
    ensures
        s.cycle_count < u64::MAX,
        s.instruction_count < u64::MAX,
        s.stepped(s.memory[s.iar as int]).1 is None ==> s.stepped(
            s.memory[s.iar as int],
        ).0.has_room((budget - 1) as nat),
{
    assert(s.ran(0) == (s, None::<MachineFault>));
    let (next, fault) = s.stepped(s.memory[s.iar as int]);
    if fault is None {
        assert forall|k: nat|
            k < budget - 1 && !(#[trigger] next.ran(k)).0.halted && next.ran(k).1 is None implies next.ran(
            k,
        ).0.cycle_count < u64::MAX && next.ran(k).0.instruction_count < u64::MAX by {
            lemma_ran_unfold(s, k);
            assert(s.ran(k + 1) == next.ran(k));
        }
    }
}

/// A halted processor has room for every run: it takes no step.
pub proof fn lemma_halted_has_room(s: CpuView, budget: nat)
    requires
        s.halted,
    ensures
        s.has_room(budget),
{
    assert forall|k: nat| k < budget implies (#[trigger] s.ran(k)).0.halted by {
        lemma_halted_does_not_run(s, k);
    }
}

/// Counters that are `budget` below their limit have room for a run of
/// `budget` steps.
pub proof fn lemma_counters_have_room(s: CpuView, budget: nat)
    requires
        s.wf(),
        s.cycle_count + budget <= u64::MAX,
        s.instruction_count + budget <= u64::MAX,
    ensures
        s.has_room(budget),
{
    assert forall|k: nat|
        k < budget && !(#[trigger] s.ran(k)).0.halted && s.ran(k).1 is None implies s.ran(
        k,
    ).0.cycle_count < u64::MAX && s.ran(k).0.instruction_count < u64::MAX by {
        lemma_ran(s, k);
    }
}

} // verus!
