//! The assembler: from text, line by line, to words and a listing.

use crate::cpu::instruction::{AddressingMode, BranchCondition, Instruction};
use crate::cpu::state::PROGRAM_START;
pub use crate::encoding::{decode_instruction, encode_instruction};
use crate::text::{
    before_first, chars_of, find_char, other_than, parse_unsigned, push_text, run_len, same_text,
    split_tokens, string_of, to_uppercase, tokens, trim_range, trimmed, unsigned_value,
    uppercase_of,
};
use crate::word::wrapped;
use vstd::prelude::*;

verus! {

/// Why a text could not be assembled or a word could not be decoded; each
/// kind with the piece of text at fault.
#[derive(Debug, Clone, PartialEq, Eq)]
pub enum AssemblerError {
    /// No instruction has this mnemonic.
    InvalidMnemonic(String),
    /// The addressing mode is neither `0` nor `1`.
    InvalidMode(String),
    /// The address is no number of 16 bits.
    InvalidAddress(String),
    /// The operand is not valid.
    InvalidOperand(String),
    /// The instruction needs more operands.
    MissingOperand(String),
    /// No branch condition has this name.
    InvalidCondition(String),
    /// The shift count is no number of 8 bits.
    InvalidShiftCount(String),
    /// The line has not the shape of a statement.
    SyntaxError(String),
    /// The address of a directive is no number of 16 bits.
    InvalidDataAddress(String),
    /// The value of a `DATA` directive is no number of 16 bits.
    InvalidDataValue(String),
}

/// The mathematical content of an [`AssemblerError`].
pub enum AssemblerFault {
    InvalidMnemonic(Seq<char>),
    InvalidMode(Seq<char>),
    InvalidAddress(Seq<char>),
    InvalidOperand(Seq<char>),
    MissingOperand(Seq<char>),
    InvalidCondition(Seq<char>),
    InvalidShiftCount(Seq<char>),
    SyntaxError(Seq<char>),
    InvalidDataAddress(Seq<char>),
    InvalidDataValue(Seq<char>),
}

impl View for AssemblerError {
    type V = AssemblerFault;

    open spec fn view(&self) -> AssemblerFault {
        match self {
            AssemblerError::InvalidMnemonic(s) => AssemblerFault::InvalidMnemonic(s@),
            AssemblerError::InvalidMode(s) => AssemblerFault::InvalidMode(s@),
            AssemblerError::InvalidAddress(s) => AssemblerFault::InvalidAddress(s@),
            AssemblerError::InvalidOperand(s) => AssemblerFault::InvalidOperand(s@),
            AssemblerError::MissingOperand(s) => AssemblerFault::MissingOperand(s@),
            AssemblerError::InvalidCondition(s) => AssemblerFault::InvalidCondition(s@),
            AssemblerError::InvalidShiftCount(s) => AssemblerFault::InvalidShiftCount(s@),
            AssemblerError::SyntaxError(s) => AssemblerFault::SyntaxError(s@),
            AssemblerError::InvalidDataAddress(s) => AssemblerFault::InvalidDataAddress(s@),
            AssemblerError::InvalidDataValue(s) => AssemblerFault::InvalidDataValue(s@),
        }
    }
}

/// A result with its error, if any, taken by its content.
pub open spec fn outcome<T>(r: Result<T, AssemblerError>) -> Result<T, AssemblerFault> {
    match r {
        Ok(v) => Ok(v),
        Err(e) => Err(e@),
    }
}

impl AssemblerError {
    /// The text of this error.
    pub open spec fn spec_message(self) -> Seq<char> {
        match self {
            AssemblerError::InvalidMnemonic(s) => "Invalid instruction mnemonic: "@ + s@,
            AssemblerError::InvalidMode(s) => "Invalid addressing mode: "@ + s@,
            AssemblerError::InvalidAddress(s) => "Invalid address: "@ + s@,
            AssemblerError::InvalidOperand(s) => "Invalid operand: "@ + s@,
            AssemblerError::MissingOperand(s) => "Missing operand for instruction "@ + s@,
            AssemblerError::InvalidCondition(s) => "Invalid branch condition: "@ + s@,
            AssemblerError::InvalidShiftCount(s) => "Invalid shift count: "@ + s@,
            AssemblerError::SyntaxError(s) => "Syntax error: "@ + s@,
            AssemblerError::InvalidDataAddress(s) => "Invalid DATA directive address: "@ + s@,
            AssemblerError::InvalidDataValue(s) => "Invalid DATA directive value: "@ + s@,
        }
    }

    /// The text of this error, as it is shown to a user.
    pub fn message(&self) -> (r: String)
        ensures
            r@ == self.spec_message(),
    {
        let mut r = String::new();
        match self {
            AssemblerError::InvalidMnemonic(s) => {
                push_text(&mut r, "Invalid instruction mnemonic: ");
                push_text(&mut r, s.as_str());
            },
            AssemblerError::InvalidMode(s) => {
                push_text(&mut r, "Invalid addressing mode: ");
                push_text(&mut r, s.as_str());
            },
            AssemblerError::InvalidAddress(s) => {
                push_text(&mut r, "Invalid address: ");
                push_text(&mut r, s.as_str());
            },
            AssemblerError::InvalidOperand(s) => {
                push_text(&mut r, "Invalid operand: ");
                push_text(&mut r, s.as_str());
            },
            AssemblerError::MissingOperand(s) => {
                push_text(&mut r, "Missing operand for instruction ");
                push_text(&mut r, s.as_str());
            },
            AssemblerError::InvalidCondition(s) => {
                push_text(&mut r, "Invalid branch condition: ");
                push_text(&mut r, s.as_str());
            },
            AssemblerError::InvalidShiftCount(s) => {
                push_text(&mut r, "Invalid shift count: ");
                push_text(&mut r, s.as_str());
            },
            AssemblerError::SyntaxError(s) => {
                push_text(&mut r, "Syntax error: ");
                push_text(&mut r, s.as_str());
            },
            AssemblerError::InvalidDataAddress(s) => {
                push_text(&mut r, "Invalid DATA directive address: ");
                push_text(&mut r, s.as_str());
            },
            AssemblerError::InvalidDataValue(s) => {
                push_text(&mut r, "Invalid DATA directive value: ");
                push_text(&mut r, s.as_str());
            },
        }
        r
    }
}

// ----------------------------------------------------------------------
// Operands
// ----------------------------------------------------------------------

/// The addressing mode that `s` names: `0` is direct, `1` is indexed.
pub open spec fn mode_of(s: Seq<char>) -> Result<AddressingMode, AssemblerFault> {
    if s == "0"@ {
        Ok(AddressingMode::Direct)
    } else if s == "1"@ {
        Ok(AddressingMode::Indexed)
    } else {
        Err(AssemblerFault::InvalidMode(s))
    }
}

/// The number of 16 bits that `s` denotes: in base sixteen behind `0x` or
/// `0X`, in base ten otherwise.
pub open spec fn address_value(s: Seq<char>) -> Option<u16> {
    let number = if s.len() >= 2 && s[0] == '0' && (s[1] == 'x' || s[1] == 'X') {
        unsigned_value(s.skip(2), 16, 0xFFFF)
    } else {
        unsigned_value(s, 10, 0xFFFF)
    };
    match number {
        Some(v) => Some(v as u16),
        None => None,
    }
}

/// The address that `s` denotes.
pub open spec fn address_of(s: Seq<char>) -> Result<u16, AssemblerFault> {
    match address_value(s) {
        Some(v) => Ok(v),
        None => Err(AssemblerFault::InvalidAddress(s)),
    }
}

/// The shift count that `s` denotes: a number of 8 bits in base ten.
pub open spec fn shift_count_of(s: Seq<char>) -> Result<u8, AssemblerFault> {
    match unsigned_value(s, 10, 0xFF) {
        Some(v) => Ok(v as u8),
        None => Err(AssemblerFault::InvalidShiftCount(s)),
    }
}

/// The operands of an instruction that takes a mode and an address.
pub open spec fn mode_and_address(parts: Seq<Seq<char>>, name: Seq<char>) -> Result<
    (u16, AddressingMode),
    AssemblerFault,
> {
    if parts.len() < 3 {
        Err(AssemblerFault::MissingOperand(name))
    } else {
        match mode_of(parts[1]) {
            Err(e) => Err(e),
            Ok(mode) => match address_of(parts[2]) {
                Err(e) => Err(e),
                Ok(addr) => Ok((addr, mode)),
            },
        }
    }
}

/// The operand of an instruction that takes an address only.
pub open spec fn lone_address(parts: Seq<Seq<char>>, name: Seq<char>) -> Result<
    u16,
    AssemblerFault,
> {
    if parts.len() < 2 {
        Err(AssemblerFault::MissingOperand(name))
    } else {
        address_of(parts[1])
    }
}

/// The operand of a shift.
pub open spec fn lone_count(parts: Seq<Seq<char>>, name: Seq<char>) -> Result<u8, AssemblerFault> {
    if parts.len() < 2 {
        Err(AssemblerFault::MissingOperand(name))
    } else {
        shift_count_of(parts[1])
    }
}

/// The operands of a branch on condition. The condition may be written in
/// either case.
pub open spec fn condition_and_address(parts: Seq<Seq<char>>) -> Result<
    (u16, BranchCondition),
    AssemblerFault,
> {
    if parts.len() < 3 {
        Err(AssemblerFault::MissingOperand("BSC"@))
    } else {
        match BranchCondition::lettered(uppercase_of(parts[1])) {
            None => Err(AssemblerFault::InvalidCondition(parts[1])),
            Some(condition) => match address_of(parts[2]) {
                Err(e) => Err(e),
                Ok(addr) => Ok((addr, condition)),
            },
        }
    }
}

// ----------------------------------------------------------------------
// Statements
// ----------------------------------------------------------------------

/// The instruction that the tokens `parts` of a line denote, where `head`
/// is the first of them in upper case. Operands beyond those that the
/// instruction takes are ignored.
pub open spec fn instruction_of(head: Seq<char>, parts: Seq<Seq<char>>) -> Result<
    Instruction,
    AssemblerFault,
> {
    if head == "LD"@ {
        match mode_and_address(parts, head) {
            Ok((addr, mode)) => Ok(Instruction::LD { addr, mode }),
            Err(e) => Err(e),
        }
    } else if head == "STO"@ {
        match mode_and_address(parts, head) {
            Ok((addr, mode)) => Ok(Instruction::STO { addr, mode }),
            Err(e) => Err(e),
        }
    } else if head == "A"@ {
        match mode_and_address(parts, head) {
            Ok((addr, mode)) => Ok(Instruction::A { addr, mode }),
            Err(e) => Err(e),
        }
    } else if head == "S"@ {
        match mode_and_address(parts, head) {
            Ok((addr, mode)) => Ok(Instruction::S { addr, mode }),
            Err(e) => Err(e),
        }
    } else if head == "AND"@ {
        match mode_and_address(parts, head) {
            Ok((addr, mode)) => Ok(Instruction::AND { addr, mode }),
            Err(e) => Err(e),
        }
    } else if head == "OR"@ {
        match mode_and_address(parts, head) {
            Ok((addr, mode)) => Ok(Instruction::OR { addr, mode }),
            Err(e) => Err(e),
        }
    } else if head == "LDX"@ {
        match lone_address(parts, head) {
            Ok(addr) => Ok(Instruction::LDX { addr }),
            Err(e) => Err(e),
        }
    } else if head == "STX"@ {
        match lone_address(parts, head) {
            Ok(addr) => Ok(Instruction::STX { addr }),
            Err(e) => Err(e),
        }
    } else if head == "SLA"@ {
        match lone_count(parts, head) {
            Ok(count) => Ok(Instruction::SLA { count }),
            Err(e) => Err(e),
        }
    } else if head == "SRA"@ {
        match lone_count(parts, head) {
            Ok(count) => Ok(Instruction::SRA { count }),
            Err(e) => Err(e),
        }
    } else if head == "BSC"@ {
        match condition_and_address(parts) {
            Ok((addr, condition)) => Ok(Instruction::BSC { addr, condition }),
            Err(e) => Err(e),
        }
    } else if head == "BSI"@ {
        match lone_address(parts, head) {
            Ok(addr) => Ok(Instruction::BSI { addr }),
            Err(e) => Err(e),
        }
    } else if head == "WAIT"@ {
        Ok(Instruction::WAIT)
    } else if head == "NOP"@ {
        Ok(Instruction::NOP)
    } else {
        Err(AssemblerFault::InvalidMnemonic(head))
    }
}

/// The instruction that a line denotes. Its first token, in either case, is
/// the mnemonic.
pub open spec fn line_instruction(line: Seq<char>) -> Result<Instruction, AssemblerFault> {
    let parts = tokens(line);
    if parts.len() == 0 {
        Err(AssemblerFault::SyntaxError("Empty line"@))
    } else {
        instruction_of(uppercase_of(parts[0]), parts)
    }
}

/// The address that an `ORG` directive with the tokens `parts` sets.
pub open spec fn origin_of(parts: Seq<Seq<char>>) -> Result<u16, AssemblerFault> {
    if parts.len() < 2 {
        Err(AssemblerFault::SyntaxError("ORG directive requires an address"@))
    } else {
        match address_value(parts[1]) {
            Some(addr) => Ok(addr),
            None => Err(AssemblerFault::InvalidDataAddress(parts[1])),
        }
    }
}

/// The address and the value that a `DATA` directive with the tokens
/// `parts` gives.
pub open spec fn datum_of(parts: Seq<Seq<char>>) -> Result<(u16, u16), AssemblerFault> {
    if parts.len() < 3 {
        Err(AssemblerFault::SyntaxError("DATA directive requires address and value"@))
    } else {
        match address_value(parts[1]) {
            None => Err(AssemblerFault::InvalidDataAddress(parts[1])),
            Some(addr) => match address_value(parts[2]) {
                None => Err(AssemblerFault::InvalidDataValue(parts[2])),
                Some(value) => Ok((addr, value)),
            },
        }
    }
}

/// What one line of a program says.
#[derive(Debug, Clone, PartialEq, Eq)]
pub enum Statement {
    /// `ORG`: assembly goes on at this address.
    Origin(u16),
    /// `DATA`: an address and the value meant for it.
    Datum(u16, u16),
    /// An instruction.
    Code(Instruction),
}

/// The statement that the tokens `parts` of a line denote, where `head` is
/// the first of them in upper case: a directive where `head` is `ORG` or
/// `DATA`, an instruction otherwise.
pub open spec fn statement_of(head: Seq<char>, parts: Seq<Seq<char>>) -> Result<
    Statement,
    AssemblerFault,
> {
    if head == "ORG"@ {
        match origin_of(parts) {
            Ok(addr) => Ok(Statement::Origin(addr)),
            Err(e) => Err(e),
        }
    } else if head == "DATA"@ {
        match datum_of(parts) {
            Ok((addr, value)) => Ok(Statement::Datum(addr, value)),
            Err(e) => Err(e),
        }
    } else {
        match instruction_of(head, parts) {
            Ok(instr) => Ok(Statement::Code(instr)),
            Err(e) => Err(e),
        }
    }
}

// ----------------------------------------------------------------------
// Programs
// ----------------------------------------------------------------------

/// One line of a listing: an instruction, where it goes and what it was
/// written as.
#[derive(Debug, Clone)]
pub struct AssemblyLine {
    /// The address of the instruction.
    pub address: u16,
    /// The word that stands for the instruction.
    pub opcode: u16,
    /// The text of the line, without comment and surrounding white space.
    pub source: String,
}

/// The mathematical content of an [`AssemblyLine`].
pub struct LineView {
    pub address: u16,
    pub opcode: u16,
    pub source: Seq<char>,
}

impl View for AssemblyLine {
    type V = LineView;

    open spec fn view(&self) -> LineView {
        LineView { address: self.address, opcode: self.opcode, source: self.source@ }
    }
}

/// The views of the lines of a listing.
pub open spec fn listing_view(listing: Seq<AssemblyLine>) -> Seq<LineView> {
    Seq::new(listing.len(), |i: int| listing[i]@)
}

/// What assembling a text gives.
#[derive(Debug, Clone)]
pub struct AssembledProgram {
    /// The words of the program, in the order of its instructions.
    pub code: Vec<u16>,
    /// The address at which assembly began.
    pub start_addr: u16,
    /// One line for each instruction, in order.
    pub listing: Vec<AssemblyLine>,
}

/// The mathematical content of an [`AssembledProgram`].
pub struct ProgramView {
    pub code: Seq<u16>,
    pub start_addr: u16,
    pub listing: Seq<LineView>,
}

impl View for AssembledProgram {
    type V = ProgramView;

    open spec fn view(&self) -> ProgramView {
        ProgramView {
            code: self.code@,
            start_addr: self.start_addr,
            listing: listing_view(self.listing@),
        }
    }
}

/// How far an assembly has come: where the next instruction goes, and the
/// words and the listing so far.
pub struct Progress {
    pub cursor: u16,
    pub code: Seq<u16>,
    pub listing: Seq<LineView>,
}

/// The lines of a text: its pieces between line feeds. A carriage return
/// before a line feed stays with its line, where it is white space like
/// any other.
pub open spec fn lines(s: Seq<char>) -> Seq<Seq<char>>
    decreases s.len(),
{
    let n = run_len(s, other_than('\n'));
    if n >= s.len() {
        seq![s]
    } else {
        seq![s.take(n as int)] + lines(s.skip(n as int + 1))
    }
}

/// What a line says once its comment, from the first `;` on, and the white
/// space round the rest are taken away.
pub open spec fn line_text(raw: Seq<char>) -> Seq<char> {
    trimmed(before_first(raw, ';'))
}

/// The progress after one more line. A line that says nothing changes
/// nothing. `ORG` moves the cursor; `DATA` is read and has no effect; an
/// instruction is encoded, put at the cursor and listed, and the cursor
/// moves on by one, modulo 2^16.
pub open spec fn after_line(p: Progress, raw: Seq<char>) -> Result<Progress, AssemblerFault> {
    let text = line_text(raw);
    let parts = tokens(text);
    if parts.len() == 0 {
        Ok(p)
    } else {
        match statement_of(uppercase_of(parts[0]), parts) {
            Err(e) => Err(e),
            Ok(Statement::Origin(addr)) => Ok(Progress { cursor: addr, ..p }),
            Ok(Statement::Datum(_, _)) => Ok(p),
            Ok(Statement::Code(instr)) => Ok(
                Progress {
                    cursor: wrapped(p.cursor + 1),
                    code: p.code.push(instr.encoding()),
                    listing: p.listing.push(
                        LineView { address: p.cursor, opcode: instr.encoding(), source: text },
                    ),
                },
            ),
        }
    }
}

/// The progress after the lines `ls`, and the fault of the first line that
/// has one; assembly stops there.
pub open spec fn after_lines(p: Progress, ls: Seq<Seq<char>>) -> (Progress, Option<AssemblerFault>)
    decreases ls.len(),
{
    if ls.len() == 0 {
        (p, None)
    } else {
        match after_line(p, ls[0]) {
            Ok(next) => after_lines(next, ls.skip(1)),
            Err(e) => (p, Some(e)),
        }
    }
}

/// The progress from which an assembly starts at `cursor`.
pub open spec fn beginning(cursor: u16) -> Progress {
    Progress { cursor, code: Seq::empty(), listing: Seq::empty() }
}

/// What assembling `source` from `cursor` on gives: the program, or the
/// fault of the first line that has one.
pub open spec fn assembled(source: Seq<char>, cursor: u16) -> Result<ProgramView, AssemblerFault> {
    let (p, fault) = after_lines(beginning(cursor), lines(source));
    match fault {
        Some(e) => Err(e),
        None => Ok(ProgramView { code: p.code, start_addr: cursor, listing: p.listing }),
    }
}

/// Where the cursor stands once `source` was assembled from `cursor` on:
/// behind the last instruction, or where the first fault was met.
pub open spec fn cursor_after(source: Seq<char>, cursor: u16) -> u16 {
    after_lines(beginning(cursor), lines(source)).0.cursor
}

/// A program, or the error in place of one, taken by its content.
pub open spec fn program_outcome(r: Result<AssembledProgram, AssemblerError>) -> Result<
    ProgramView,
    AssemblerFault,
> {
    match r {
        Ok(program) => Ok(program@),
        Err(e) => Err(e@),
    }
}

/// Whether a listing goes with the words of a program: one line for each
/// word, in order, with that word as its opcode.
pub open spec fn aligned(code: Seq<u16>, listing: Seq<LineView>) -> bool {
    &&& listing.len() == code.len()
    &&& forall|i: int| 0 <= i < code.len() ==> (#[trigger] listing[i]).opcode == code[i]
}

/// Whether every word of `code` stands for an instruction.
pub open spec fn all_decode(code: Seq<u16>) -> bool {
    forall|i: int| 0 <= i < code.len() ==> crate::encoding::decoding(#[trigger] code[i]) is Ok
}

/// Assembly keeps the listing with the words, and every word that it emits
/// stands for an instruction.
pub proof fn lemma_after_lines_aligned(p: Progress, ls: Seq<Seq<char>>)
    requires
        aligned(p.code, p.listing),
        all_decode(p.code),
    ensures
        aligned(after_lines(p, ls).0.code, after_lines(p, ls).0.listing),
        all_decode(after_lines(p, ls).0.code),
    decreases ls.len(),
{
    if ls.len() > 0 {
        match after_line(p, ls[0]) {
            Ok(next) => {
                let parts = tokens(line_text(ls[0]));
                if parts.len() > 0 {
                    if let Ok(Statement::Code(instr)) = statement_of(
                        uppercase_of(parts[0]),
                        parts,
                    ) {
                        crate::encoding::lemma_decode_encode_masks(instr);
                    }
                }
                lemma_after_lines_aligned(next, ls.skip(1));
            },
            Err(_) => {},
        }
    }
}

/// In an assembled program the listing has one line for each word, in
/// order and with that word as its opcode, and every word stands for an
/// instruction.
pub proof fn lemma_assembled_aligned(source: Seq<char>, cursor: u16)
    ensures
        assembled(source, cursor) matches Ok(program) ==> {
            &&& program.start_addr == cursor
            &&& aligned(program.code, program.listing)
            &&& all_decode(program.code)
        },
{
    lemma_after_lines_aligned(beginning(cursor), lines(source));
}

/// To go through the lines of a text is to go through its first line and
/// then through the lines of the rest.
proof fn lemma_after_lines_unfold(p: Progress, s: Seq<char>)
    ensures
        ({
            let n = run_len(s, other_than('\n'));
            after_lines(p, lines(s)) == match after_line(p, s.take(n as int)) {
                Ok(next) => if n >= s.len() {
                    (next, None::<AssemblerFault>)
                } else {
                    after_lines(next, lines(s.skip(n as int + 1)))
                },
                Err(e) => (p, Some(e)),
            }
        }),
{
    let n = run_len(s, other_than('\n'));
    crate::text::lemma_run_len_bound(s, other_than('\n'));
    let ls = lines(s);
    if n >= s.len() {
        assert(s.take(n as int) == s);
        match after_line(p, s) {
            Ok(next) => {
                assert(after_lines(next, ls.skip(1)) == (next, None::<AssemblerFault>));
            },
            Err(e) => {},
        }
    } else {
        let rest = lines(s.skip(n as int + 1));
        assert(ls.skip(1) == rest);
    }
}

/// The assembler. It holds the cursor, which is the address at which the
/// next instruction goes. Every assembly sets the cursor to the program
/// start before its first line; behind an assembly the cursor tells where
/// it ended.
pub struct Assembler {
    current_addr: u16,
}

impl Default for Assembler {
    fn default() -> (r: Self)
        ensures
            r.cursor() == PROGRAM_START,
    {
        Self::new()
    }
}

impl Assembler {
    /// The address at which the next instruction goes.
    pub closed spec fn cursor(&self) -> u16 {
        self.current_addr
    }

    /// An assembler that starts at the program start.
    pub fn new() -> (r: Self)
        ensures
            r.cursor() == PROGRAM_START,
    {
        Self { current_addr: PROGRAM_START }
    }

    /// The address at which the next instruction goes.
    pub fn current_addr(&self) -> (r: u16)
        ensures
            r == self.cursor(),
    {
        self.current_addr
    }

    /// Reads an addressing mode: `0` for direct, `1` for indexed.
    pub fn parse_mode(&self, s: &str) -> (r: Result<AddressingMode, AssemblerError>)
        ensures
            outcome(r) == mode_of(s@),
    {
        if same_text(s, "0") {
            Ok(AddressingMode::Direct)
        } else if same_text(s, "1") {
            Ok(AddressingMode::Indexed)
        } else {
            Err(AssemblerError::InvalidMode(s.to_owned()))
        }
    }

    /// Reads a number of 16 bits: in base sixteen behind `0x` or `0X`, in
    /// base ten otherwise.
    pub fn parse_number(s: &str) -> (r: Option<u16>)
        ensures
            r == address_value(s@),
    {
        let chars = chars_of(s);
        let n = chars.len();
        let number = if n >= 2 && chars[0] == '0' && (chars[1] == 'x' || chars[1] == 'X') {
            parse_unsigned(&chars, 2, n, 16, 0xFFFF)
        } else {
            assert(chars@.subrange(0, n as int) == s@);
            parse_unsigned(&chars, 0, n, 10, 0xFFFF)
        };
        match number {
            Some(v) => Some(v as u16),
            None => None,
        }
    }

    /// Reads an address: a number of 16 bits, in base sixteen behind `0x`
    /// or `0X`, in base ten otherwise.
    pub fn parse_address(&self, s: &str) -> (r: Result<u16, AssemblerError>)
        ensures
            outcome(r) == address_of(s@),
    {
        match Self::parse_number(s) {
            Some(v) => Ok(v),
            None => Err(AssemblerError::InvalidAddress(s.to_owned())),
        }
    }

    /// Reads a shift count: a number of 8 bits in base ten.
    pub fn parse_shift_count(&self, s: &str) -> (r: Result<u8, AssemblerError>)
        ensures
            outcome(r) == shift_count_of(s@),
    {
        let chars = chars_of(s);
        assert(chars@.subrange(0, chars.len() as int) == s@);
        match parse_unsigned(&chars, 0, chars.len(), 10, 0xFF) {
            Some(v) => Ok(v as u8),
            None => Err(AssemblerError::InvalidShiftCount(s.to_owned())),
        }
    }

    /// Reads the tokens of an `ORG` directive.
    pub fn parse_org_tokens(&self, parts: &Vec<String>) -> (r: Result<u16, AssemblerError>)
        ensures
            outcome(r) == origin_of(parts.deep_view()),
    {
        if parts.len() < 2 {
            return Err(
                AssemblerError::SyntaxError("ORG directive requires an address".to_owned()),
            );
        }
        match Self::parse_number(parts[1].as_str()) {
            Some(addr) => Ok(addr),
            None => Err(AssemblerError::InvalidDataAddress(parts[1].clone())),
        }
    }

    /// Reads the tokens of a `DATA` directive.
    pub fn parse_data_tokens(&self, parts: &Vec<String>) -> (r: Result<
        (u16, u16),
        AssemblerError,
    >)
        ensures
            outcome(r) == datum_of(parts.deep_view()),
    {
        if parts.len() < 3 {
            return Err(
                AssemblerError::SyntaxError(
                    "DATA directive requires address and value".to_owned(),
                ),
            );
        }
        let addr = match Self::parse_number(parts[1].as_str()) {
            Some(addr) => addr,
            None => {
                return Err(AssemblerError::InvalidDataAddress(parts[1].clone()));
            },
        };
        let value = match Self::parse_number(parts[2].as_str()) {
            Some(value) => value,
            None => {
                return Err(AssemblerError::InvalidDataValue(parts[2].clone()));
            },
        };
        Ok((addr, value))
    }

    /// Reads an `ORG` directive, such as `ORG 16` or `ORG 0x10`.
    pub fn parse_org_directive(&self, line: &str) -> (r: Result<u16, AssemblerError>)
        ensures
            outcome(r) == origin_of(tokens(line@)),
    {
        let chars = chars_of(line);
        assert(chars@.subrange(0, chars.len() as int) == line@);
        let parts = split_tokens(&chars, 0, chars.len());
        self.parse_org_tokens(&parts)
    }

    /// Reads a `DATA` directive, such as `DATA 10 5`.
    pub fn parse_data_directive(&self, line: &str) -> (r: Result<(u16, u16), AssemblerError>)
        ensures
            outcome(r) == datum_of(tokens(line@)),
    {
        let chars = chars_of(line);
        assert(chars@.subrange(0, chars.len() as int) == line@);
        let parts = split_tokens(&chars, 0, chars.len());
        self.parse_data_tokens(&parts)
    }

    /// Reads the operands of an instruction that takes a mode and an address.
    fn parse_mode_and_address(&self, parts: &Vec<String>, name: &str) -> (r: Result<
        (u16, AddressingMode),
        AssemblerError,
    >)
        ensures
            outcome(r) == mode_and_address(parts.deep_view(), name@),
    {
        if parts.len() < 3 {
            return Err(AssemblerError::MissingOperand(name.to_owned()));
        }
        let mode = self.parse_mode(parts[1].as_str())?;
        let addr = self.parse_address(parts[2].as_str())?;
        Ok((addr, mode))
    }

    /// Reads the operand of an instruction that takes an address only.
    fn parse_lone_address(&self, parts: &Vec<String>, name: &str) -> (r: Result<
        u16,
        AssemblerError,
    >)
        ensures
            outcome(r) == lone_address(parts.deep_view(), name@),
    {
        if parts.len() < 2 {
            return Err(AssemblerError::MissingOperand(name.to_owned()));
        }
        self.parse_address(parts[1].as_str())
    }

    /// Reads the operand of a shift.
    fn parse_lone_count(&self, parts: &Vec<String>, name: &str) -> (r: Result<u8, AssemblerError>)
        ensures
            outcome(r) == lone_count(parts.deep_view(), name@),
    {
        if parts.len() < 2 {
            return Err(AssemblerError::MissingOperand(name.to_owned()));
        }
        self.parse_shift_count(parts[1].as_str())
    }

    /// Reads the operands of a branch on condition.
    fn parse_condition_and_address(&self, parts: &Vec<String>) -> (r: Result<
        (u16, BranchCondition),
        AssemblerError,
    >)
        ensures
            outcome(r) == condition_and_address(parts.deep_view()),
    {
        if parts.len() < 3 {
            return Err(AssemblerError::MissingOperand("BSC".to_owned()));
        }
        assert(parts.deep_view()[1] == parts@[1]@);
        let condition = match BranchCondition::parse(parts[1].as_str()) {
            Some(condition) => condition,
            None => {
                return Err(AssemblerError::InvalidCondition(parts[1].clone()));
            },
        };
        let addr = self.parse_address(parts[2].as_str())?;
        Ok((addr, condition))
    }

    /// Reads the tokens `parts` of a line as an instruction, where
    /// `mnemonic` is the first of them in upper case.
    pub fn parse_tokens(&self, mnemonic: &str, parts: &Vec<String>) -> (r: Result<
        Instruction,
        AssemblerError,
    >)
        ensures
            outcome(r) == instruction_of(mnemonic@, parts.deep_view()),
    {
        if same_text(mnemonic, "LD") {
            let (addr, mode) = self.parse_mode_and_address(parts, mnemonic)?;
            Ok(Instruction::LD { addr, mode })
        } else if same_text(mnemonic, "STO") {
            let (addr, mode) = self.parse_mode_and_address(parts, mnemonic)?;
            Ok(Instruction::STO { addr, mode })
        } else if same_text(mnemonic, "A") {
            let (addr, mode) = self.parse_mode_and_address(parts, mnemonic)?;
            Ok(Instruction::A { addr, mode })
        } else if same_text(mnemonic, "S") {
            let (addr, mode) = self.parse_mode_and_address(parts, mnemonic)?;
            Ok(Instruction::S { addr, mode })
        } else if same_text(mnemonic, "AND") {
            let (addr, mode) = self.parse_mode_and_address(parts, mnemonic)?;
            Ok(Instruction::AND { addr, mode })
        } else if same_text(mnemonic, "OR") {
            let (addr, mode) = self.parse_mode_and_address(parts, mnemonic)?;
            Ok(Instruction::OR { addr, mode })
        } else if same_text(mnemonic, "LDX") {
            let addr = self.parse_lone_address(parts, mnemonic)?;
            Ok(Instruction::LDX { addr })
        } else if same_text(mnemonic, "STX") {
            let addr = self.parse_lone_address(parts, mnemonic)?;
            Ok(Instruction::STX { addr })
        } else if same_text(mnemonic, "SLA") {
            let count = self.parse_lone_count(parts, mnemonic)?;
            Ok(Instruction::SLA { count })
        } else if same_text(mnemonic, "SRA") {
            let count = self.parse_lone_count(parts, mnemonic)?;
            Ok(Instruction::SRA { count })
        } else if same_text(mnemonic, "BSC") {
            let (addr, condition) = self.parse_condition_and_address(parts)?;
            Ok(Instruction::BSC { addr, condition })
        } else if same_text(mnemonic, "BSI") {
            let addr = self.parse_lone_address(parts, mnemonic)?;
            Ok(Instruction::BSI { addr })
        } else if same_text(mnemonic, "WAIT") {
            Ok(Instruction::WAIT)
        } else if same_text(mnemonic, "NOP") {
            Ok(Instruction::NOP)
        } else {
            Err(AssemblerError::InvalidMnemonic(mnemonic.to_owned()))
        }
    }

    /// Reads one line as an instruction.
    pub fn parse_line(&self, line: &str) -> (r: Result<Instruction, AssemblerError>)
        ensures
            outcome(r) == line_instruction(line@),
    {
        let chars = chars_of(line);
        assert(chars@.subrange(0, chars.len() as int) == line@);
        let parts = split_tokens(&chars, 0, chars.len());
        if parts.len() == 0 {
            return Err(AssemblerError::SyntaxError("Empty line".to_owned()));
        }
        let mnemonic = to_uppercase(parts[0].as_str());
        self.parse_tokens(mnemonic.as_str(), &parts)
    }

    /// Reads the tokens `parts` of a line as a statement, where `head` is
    /// the first of them in upper case.
    pub fn parse_statement(&self, head: &str, parts: &Vec<String>) -> (r: Result<
        Statement,
        AssemblerError,
    >)
        ensures
            outcome(r) == statement_of(head@, parts.deep_view()),
    {
        if same_text(head, "ORG") {
            let addr = self.parse_org_tokens(parts)?;
            Ok(Statement::Origin(addr))
        } else if same_text(head, "DATA") {
            let (addr, value) = self.parse_data_tokens(parts)?;
            Ok(Statement::Datum(addr, value))
        } else {
            let instr = self.parse_tokens(head, parts)?;
            Ok(Statement::Code(instr))
        }
    }

    /// Assembles a program, line by line. Every assembly begins with the
    /// cursor at the program start, whatever was assembled before. The first
    /// line at fault ends the assembly with its error.
    pub fn assemble(&mut self, source: &str) -> (r: Result<AssembledProgram, AssemblerError>)
        ensures
            program_outcome(r) == assembled(source@, PROGRAM_START),
            final(self).cursor() == cursor_after(source@, PROGRAM_START),
    {
        let chars = chars_of(source);
        let n = chars.len();
        let mut code: Vec<u16> = Vec::new();
        let mut listing: Vec<AssemblyLine> = Vec::new();
        self.current_addr = PROGRAM_START;
        let start_addr = self.current_addr;
        let ghost goal = after_lines(beginning(start_addr), lines(source@));
        let mut pos: usize = 0;
        assert(chars@.subrange(0, n as int) == source@);
        assert(listing_view(listing@) == Seq::<LineView>::empty());
        loop
            invariant_except_break
                goal == after_lines(
                    Progress {
                        cursor: self.current_addr,
                        code: code@,
                        listing: listing_view(listing@),
                    },
                    lines(chars@.subrange(pos as int, n as int)),
                ),
            invariant
                pos <= n == chars.len(),
                chars@ == source@,
                goal == after_lines(beginning(start_addr), lines(source@)),
                start_addr == PROGRAM_START,
            ensures
                goal == (
                    Progress {
                        cursor: self.current_addr,
                        code: code@,
                        listing: listing_view(listing@),
                    },
                    None::<AssemblerFault>,
                ),
            decreases n - pos,
        {
            let ghost rest = chars@.subrange(pos as int, n as int);
            let ghost before = Progress {
                cursor: self.current_addr,
                code: code@,
                listing: listing_view(listing@),
            };
            let end = find_char(&chars, pos, n, '\n');
            let stop = find_char(&chars, pos, end, ';');
            let (a, b) = trim_range(&chars, pos, stop);
            let parts = split_tokens(&chars, a, b);
            proof {
                lemma_after_lines_unfold(before, rest);
                assert(rest.take(end - pos) == chars@.subrange(pos as int, end as int));
                assert(chars@.subrange(pos as int, end as int).take(stop - pos) == chars@.subrange(
                    pos as int,
                    stop as int,
                ));
                if end < n {
                    assert(rest.skip(end - pos + 1) == chars@.subrange(end + 1, n as int));
                }
            }
            if parts.len() > 0 {
                let head = to_uppercase(parts[0].as_str());
                match self.parse_statement(head.as_str(), &parts) {
                    Err(e) => {
                        return Err(e);
                    },
                    Ok(Statement::Origin(addr)) => {
                        self.current_addr = addr;
                    },
                    Ok(Statement::Datum(_, _)) => {},
                    Ok(Statement::Code(instr)) => {
                        let opcode = encode_instruction(&instr).unwrap();
                        let line = AssemblyLine {
                            address: self.current_addr,
                            opcode,
                            source: string_of(&chars, a, b),
                        };
                        let ghost listed = listing_view(listing@);
                        listing.push(line);
                        assert(listing_view(listing@) == listed.push(line@));
                        code.push(opcode);
                        self.current_addr = self.current_addr.wrapping_add(1);
                    },
                }
            }
            if end >= n {
                break ;
            }
            pos = end + 1;
        }
        Ok(AssembledProgram { code, start_addr, listing })
    }
}

} // verus!
