//! Challenges: tasks for a programmer of the machine, each with test cases
//! that say what a finished program must have left in the processor.

use crate::cpu::state::{CpuError, CpuState, CpuView, MEMORY_SIZE};
use crate::text::{
    decimal, hex4, push_decimal, push_hex4, push_signed, push_text, signed_decimal,
};
use crate::word::signed;
use vstd::prelude::*;

verus! {

/// How hard a challenge is.
#[derive(Debug, Clone, Copy, PartialEq, Eq)]
pub enum Difficulty {
    Beginner,
    Intermediate,
    Advanced,
}

/// One test of a challenge: what memory holds at the start, and what the
/// processor must hold at the end.
#[derive(Debug, Clone)]
pub struct TestCase {
    /// Name of the test.
    pub name: String,
    /// Words to put into memory before the program runs, as address and
    /// value.
    pub initial_memory: Vec<(u16, u16)>,
    /// The accumulator at the end, where it matters.
    pub expected_acc: Option<u16>,
    /// Words of memory at the end, as address and value.
    pub expected_memory: Vec<(u16, u16)>,
    /// The first index register at the end, where it matters.
    pub expected_xr1: Option<u16>,
}

/// A word as it is shown where it is read as a signed number: in base
/// sixteen, and in base ten in brackets.
pub open spec fn shown_signed(x: u16) -> Seq<char> {
    "0x"@ + hex4(x) + " ("@ + signed_decimal(signed(x)) + ")"@
}

/// A word as it is shown where it is read as an unsigned number: in base
/// sixteen, and in base ten in brackets.
pub open spec fn shown_unsigned(x: u16) -> Seq<char> {
    "0x"@ + hex4(x) + " ("@ + decimal(x as nat) + ")"@
}

/// The complaint about an accumulator that is not as expected.
pub open spec fn acc_mismatch(expected: u16, actual: u16) -> Seq<char> {
    "ACC mismatch: expected "@ + shown_signed(expected) + ", got "@ + shown_signed(actual)
}

/// The complaint about a first index register that is not as expected.
pub open spec fn xr1_mismatch(expected: u16, actual: u16) -> Seq<char> {
    "XR1 mismatch: expected "@ + shown_unsigned(expected) + ", got "@ + shown_unsigned(actual)
}

/// The complaint about a word of memory that is not as expected.
pub open spec fn memory_mismatch(addr: u16, expected: u16, actual: u16) -> Seq<char> {
    "Memory[0x"@ + hex4(addr) + "] mismatch: expected "@ + shown_signed(expected) + ", got "@
        + shown_signed(actual)
}

/// The complaint about an expected word at an address outside memory.
pub open spec fn invalid_address(addr: u16) -> Seq<char> {
    "Invalid memory address: "@ + CpuError::MemoryOutOfBounds(addr).spec_message()
}

/// The complaint about the first of the expected words, from the `i`-th
/// on, that memory does not hold; `None` where it holds them all.
pub open spec fn memory_complaint(expected: Seq<(u16, u16)>, memory: Seq<u16>, i: int) -> Option<
    Seq<char>,
>
    decreases expected.len() - i,
{
    if i < 0 || i >= expected.len() {
        None
    } else {
        let (addr, value) = expected[i];
        if addr >= MEMORY_SIZE {
            Some(invalid_address(addr))
        } else if memory[addr as int] != value {
            Some(memory_mismatch(addr, value, memory[addr as int]))
        } else {
            memory_complaint(expected, memory, i + 1)
        }
    }
}

impl TestCase {
    /// The first complaint of this test about the state `cpu`: about the
    /// accumulator, then the first index register, then the words of
    /// memory in their order. `None` where the state passes the test.
    pub open spec fn complaint(&self, cpu: CpuView) -> Option<Seq<char>> {
        if self.expected_acc is Some && self.expected_acc->0 != cpu.acc {
            Some(acc_mismatch(self.expected_acc->0, cpu.acc))
        } else if self.expected_xr1 is Some && self.expected_xr1->0 != cpu.xr1() {
            Some(xr1_mismatch(self.expected_xr1->0, cpu.xr1()))
        } else {
            memory_complaint(self.expected_memory@, cpu.memory, 0)
        }
    }

    /// Checks the state of a processor against what this test expects.
    /// The error is the first complaint.
    pub fn validate(&self, cpu: &CpuState) -> (r: Result<(), String>)
        ensures
            r is Ok <==> self.complaint(cpu@) is None,
            r matches Err(text) ==> self.complaint(cpu@) == Some(text@),
    {
        if let Some(expected_acc) = self.expected_acc {
            let actual = cpu.read_acc();
            if actual != expected_acc {
                let mut text = String::new();
                push_text(&mut text, "ACC mismatch: expected ");
                push_shown_signed(&mut text, expected_acc);
                push_text(&mut text, ", got ");
                push_shown_signed(&mut text, actual);
                return Err(text);
            }
        }
        if let Some(expected_xr1) = self.expected_xr1 {
            let actual = cpu.read_xr1();
            if actual != expected_xr1 {
                let mut text = String::new();
                push_text(&mut text, "XR1 mismatch: expected ");
                push_shown_unsigned(&mut text, expected_xr1);
                push_text(&mut text, ", got ");
                push_shown_unsigned(&mut text, actual);
                return Err(text);
            }
        }
        let mut i: usize = 0;
        while i < self.expected_memory.len()
            invariant
                i <= self.expected_memory.len(),
                memory_complaint(self.expected_memory@, cpu@.memory, 0) == memory_complaint(
                    self.expected_memory@,
                    cpu@.memory,
                    i as int,
                ),
                self.complaint(cpu@) == memory_complaint(self.expected_memory@, cpu@.memory, 0),
            decreases self.expected_memory.len() - i,
        {
            let (addr, expected) = self.expected_memory[i];
            match cpu.read_word(addr) {
                Err(e) => {
                    let mut text = String::new();
                    push_text(&mut text, "Invalid memory address: ");
                    push_text(&mut text, e.message().as_str());
                    return Err(text);
                },
                Ok(actual) => {
                    if actual != expected {
                        let mut text = String::new();
                        push_text(&mut text, "Memory[0x");
                        push_hex4(&mut text, addr);
                        push_text(&mut text, "] mismatch: expected ");
                        push_shown_signed(&mut text, expected);
                        push_text(&mut text, ", got ");
                        push_shown_signed(&mut text, actual);
                        return Err(text);
                    }
                },
            }
            i += 1;
        }
        Ok(())
    }
}

/// Appends a word as it is shown where it is read as a signed number.
fn push_shown_signed(s: &mut String, x: u16)
    ensures
        final(s)@ == old(s)@ + shown_signed(x),
{
    push_text(s, "0x");
    push_hex4(s, x);
    push_text(s, " (");
    push_signed(s, x);
    push_text(s, ")");
}

/// Appends a word as it is shown where it is read as an unsigned number.
fn push_shown_unsigned(s: &mut String, x: u16)
    ensures
        final(s)@ == old(s)@ + shown_unsigned(x),
{
    push_text(s, "0x");
    push_hex4(s, x);
    push_text(s, " (");
    push_decimal(s, x as u64);
    push_text(s, ")");
}

/// What one test found.
#[derive(Debug, Clone)]
pub struct TestResult {
    /// Name of the test.
    pub test_name: String,
    /// Whether the state passed the test.
    pub passed: bool,
    /// The complaint, where it did not.
    pub error: Option<String>,
    /// Cycles that the processor had counted.
    pub cycles: u64,
    /// Instructions that the processor had counted.
    pub instructions: u64,
}

impl TestResult {
    /// Whether this is the result of the test `test` on the state `cpu`.
    pub open spec fn reports(&self, test: &TestCase, cpu: CpuView) -> bool {
        &&& self.test_name@ == test.name@
        &&& self.passed == (test.complaint(cpu) is None)
        &&& self.error is Some == test.complaint(cpu) is Some
        &&& self.error matches Some(text) ==> test.complaint(cpu) == Some(text@)
        &&& self.cycles == cpu.cycle_count
        &&& self.instructions == cpu.instruction_count
    }
}

/// What the tests of a challenge found.
#[derive(Debug, Clone)]
pub struct ValidationResult {
    /// The challenge.
    pub challenge_id: u32,
    /// Whether the state passed every test.
    pub passed: bool,
    /// The result of each test, in order.
    pub test_results: Vec<TestResult>,
}

/// A task with its tests.
#[derive(Debug, Clone)]
pub struct Challenge {
    /// Number of the challenge.
    pub id: u32,
    /// Title.
    pub title: String,
    /// What is to be done.
    pub description: String,
    /// How hard it is.
    pub difficulty: Difficulty,
    /// The tests that a solution must pass.
    pub test_cases: Vec<TestCase>,
    /// Cycles that a solution may take at most, if there is a limit.
    pub max_cycles: Option<u64>,
    /// Instructions that a solution may execute at most, if there is a
    /// limit.
    pub max_instructions: Option<u64>,
    /// Hints.
    pub hints: Vec<String>,
    /// What the challenge teaches.
    pub learning_objectives: Vec<String>,
}

impl Challenge {
    /// Whether `result` is what the tests of this challenge find in the
    /// state `cpu`.
    pub open spec fn judged(&self, cpu: CpuView, result: ValidationResult) -> bool {
        &&& result.challenge_id == self.id
        &&& result.test_results@.len() == self.test_cases@.len()
        &&& forall|i: int|
            0 <= i < self.test_cases@.len() ==> (#[trigger] result.test_results@[i]).reports(
                &self.test_cases@[i],
                cpu,
            )
        &&& result.passed == forall|i: int|
            0 <= i < self.test_cases@.len() ==> (#[trigger] self.test_cases@[i]).complaint(cpu)
                is None
    }

    /// Runs every test of this challenge on the state of a processor. This
    /// always gives a result, which passes where every test does.
    pub fn validate_solution(&self, cpu: &CpuState) -> (r: Result<ValidationResult, String>)
        ensures
            r is Ok,
            self.judged(cpu@, r.unwrap()),
    {
        let mut results: Vec<TestResult> = Vec::new();
        let mut all_passed = true;
        let mut i: usize = 0;
        while i < self.test_cases.len()
            invariant
                i <= self.test_cases.len(),
                results@.len() == i,
                forall|k: int|
                    0 <= k < i ==> (#[trigger] results@[k]).reports(&self.test_cases@[k], cpu@),
                all_passed == forall|k: int|
                    0 <= k < i ==> (#[trigger] self.test_cases@[k]).complaint(cpu@) is None,
            decreases self.test_cases.len() - i,
        {
            let test_case = &self.test_cases[i];
            let result = match test_case.validate(cpu) {
                Ok(()) => TestResult {
                    test_name: test_case.name.clone(),
                    passed: true,
                    error: None,
                    cycles: cpu.cycle_count(),
                    instructions: cpu.instruction_count(),
                },
                Err(e) => TestResult {
                    test_name: test_case.name.clone(),
                    passed: false,
                    error: Some(e),
                    cycles: cpu.cycle_count(),
                    instructions: cpu.instruction_count(),
                },
            };
            if !result.passed {
                all_passed = false;
            }
            results.push(result);
            i += 1;
        }
        Ok(ValidationResult { challenge_id: self.id, passed: all_passed, test_results: results })
    }
}

// ----------------------------------------------------------------------
// The challenges
// ----------------------------------------------------------------------

/// What the first challenge asks for.
pub const LOAD_VALUE_DESCRIPTION: &'static str =
    "Load the value 25 from memory address 0x0010 into the accumulator, then halt.\n\
    \n\
    Use the LD instruction to load from memory.\n\
    Remember to end with WAIT!\n\
    \n\
    Hint: The value 25 is already stored at address 0x0010.";

/// What the second challenge asks for.
pub const ADD_NUMBERS_DESCRIPTION: &'static str = "Add two numbers from memory and store the result.\n\
    \n\
    - Address 0x0010 contains 15\n\
    - Address 0x0011 contains 27\n\
    - Store the sum (42) at address 0x0012\n\
    \n\
    Use LD to load, A to add, and STO to store.";

/// What the third challenge asks for.
pub const USE_INDEX_REGISTER_DESCRIPTION: &'static str = "Use index register XR1 to access memory.\n\
    \n\
    - Load the value 5 into XR1\n\
    - Use XR1 to load from address (0x0010 + XR1) = 0x0015\n\
    - The value at 0x0015 is 100\n\
    - ACC should end up with 100\n\
    \n\
    This demonstrates indexed addressing mode.";

/// Whether `test` has the given name, start of memory and expectations.
pub open spec fn test_is(
    test: &TestCase,
    name: Seq<char>,
    initial_memory: Seq<(u16, u16)>,
    expected_acc: Option<u16>,
    expected_memory: Seq<(u16, u16)>,
    expected_xr1: Option<u16>,
) -> bool {
    &&& test.name@ == name
    &&& test.initial_memory@ == initial_memory
    &&& test.expected_acc == expected_acc
    &&& test.expected_memory@ == expected_memory
    &&& test.expected_xr1 == expected_xr1
}

/// Whether `c` is a beginner's challenge with one test and the given
/// number, texts and limits.
pub open spec fn challenge_is(
    c: &Challenge,
    id: u32,
    title: Seq<char>,
    description: Seq<char>,
    max_cycles: u64,
    max_instructions: u64,
    hints: Seq<Seq<char>>,
    objectives: Seq<Seq<char>>,
) -> bool {
    &&& c.id == id
    &&& c.title@ == title
    &&& c.description@ == description
    &&& c.difficulty == Difficulty::Beginner
    &&& c.max_cycles == Some(max_cycles)
    &&& c.max_instructions == Some(max_instructions)
    &&& c.test_cases@.len() == 1
    &&& c.hints.deep_view() == hints
    &&& c.learning_objectives.deep_view() == objectives
}

/// Whether `c` is the first challenge: to load 25 from the word 0x0010.
pub open spec fn is_load_value(c: &Challenge) -> bool {
    &&& challenge_is(
        c,
        1,
        "Challenge 1: Load a Value"@,
        LOAD_VALUE_DESCRIPTION@,
        100,
        10,
        seq![
            "The LD instruction loads from memory into ACC"@,
            "Syntax: LD 0 addr loads from address addr into ACC"@,
            "Don't forget WAIT to halt!"@,
        ],
        seq![
            "Understand the LD instruction"@,
            "Learn about memory addressing"@,
            "Practice using the accumulator"@,
        ],
    )
    &&& test_is(
        &c.test_cases@[0],
        "ACC should contain 25"@,
        seq![(0x0010u16, 25u16)],
        Some(25u16),
        Seq::empty(),
        None,
    )
}

/// Whether `c` is the second challenge: to add the words 0x0010 and 0x0011
/// into the word 0x0012.
pub open spec fn is_add_numbers(c: &Challenge) -> bool {
    &&& challenge_is(
        c,
        2,
        "Challenge 2: Add Two Numbers"@,
        ADD_NUMBERS_DESCRIPTION@,
        200,
        20,
        seq![
            "First, load the value from 0x0010 into ACC"@,
            "Then, add the value from 0x0011 to ACC"@,
            "Finally, store ACC to 0x0012"@,
            "Example: LD 0 0x10, A 0 0x11, STO 0 0x12"@,
        ],
        seq![
            "Chain multiple instructions together"@,
            "Use the A instruction for addition"@,
            "Store results with STO"@,
        ],
    )
    &&& test_is(
        &c.test_cases@[0],
        "Memory[0x0012] should contain 42 (15 + 27)"@,
        seq![(0x0010u16, 15u16), (0x0011u16, 27u16)],
        None,
        seq![(0x0012u16, 42u16)],
        None,
    )
}

/// Whether `c` is the third challenge: to load 100 from the word 0x0015
/// through the first index register.
pub open spec fn is_use_index_register(c: &Challenge) -> bool {
    &&& challenge_is(
        c,
        3,
        "Challenge 3: Use Index Register"@,
        USE_INDEX_REGISTER_DESCRIPTION@,
        200,
        15,
        seq![
            "First store 5 into memory location 0x0001 (XR1)"@,
            "Use STO with index: STO 1 addr stores ACC to memory[addr]"@,
            "Wait, you need to get 5 into ACC first, then store it at 0x0001"@,
            "Then use LD 1 0x10 to load from address (0x10 + XR1) = 0x15"@,
        ],
        seq![
            "Understand index registers"@,
            "Learn indexed addressing mode"@,
            "Practice multi-step operations"@,
        ],
    )
    &&& test_is(
        &c.test_cases@[0],
        "ACC should contain 100 using indexed load"@,
        seq![(0x0015u16, 100u16)],
        Some(100u16),
        Seq::empty(),
        Some(5u16),
    )
}

/// The challenges, in the order of their numbers.
pub fn get_all_challenges() -> (r: Vec<Challenge>)
    ensures
        r@.len() == 3,
        is_load_value(&r@[0]),
        is_add_numbers(&r@[1]),
        is_use_index_register(&r@[2]),
{
    let mut r: Vec<Challenge> = Vec::new();
    r.push(challenge_1_load_value());
    r.push(challenge_2_add_numbers());
    r.push(challenge_3_use_index_register());
    r
}

/// A list of three texts.
fn three_texts(a: &str, b: &str, c: &str) -> (r: Vec<String>)
    ensures
        r.deep_view() == seq![a@, b@, c@],
{
    let mut r: Vec<String> = Vec::new();
    r.push(a.to_owned());
    r.push(b.to_owned());
    r.push(c.to_owned());
    r
}

/// A list of four texts.
fn four_texts(a: &str, b: &str, c: &str, d: &str) -> (r: Vec<String>)
    ensures
        r.deep_view() == seq![a@, b@, c@, d@],
{
    let mut r: Vec<String> = Vec::new();
    r.push(a.to_owned());
    r.push(b.to_owned());
    r.push(c.to_owned());
    r.push(d.to_owned());
    r
}

/// The first challenge: load a value.
pub fn challenge_1_load_value() -> (c: Challenge)
    ensures
        is_load_value(&c),
{
    let mut initial_memory: Vec<(u16, u16)> = Vec::new();
    initial_memory.push((0x0010, 25));
    let mut test_cases: Vec<TestCase> = Vec::new();
    test_cases.push(
        TestCase {
            name: "ACC should contain 25".to_owned(),
            initial_memory,
            expected_acc: Some(25),
            expected_memory: Vec::new(),
            expected_xr1: None,
        },
    );
    Challenge {
        id: 1,
        title: "Challenge 1: Load a Value".to_owned(),
        description: LOAD_VALUE_DESCRIPTION.to_owned(),
        difficulty: Difficulty::Beginner,
        test_cases,
        max_cycles: Some(100),
        max_instructions: Some(10),
        hints: three_texts(
            "The LD instruction loads from memory into ACC",
            "Syntax: LD 0 addr loads from address addr into ACC",
            "Don't forget WAIT to halt!",
        ),
        learning_objectives: three_texts(
            "Understand the LD instruction",
            "Learn about memory addressing",
            "Practice using the accumulator",
        ),
    }
}

/// The second challenge: add two numbers.
pub fn challenge_2_add_numbers() -> (c: Challenge)
    ensures
        is_add_numbers(&c),
{
    let mut initial_memory: Vec<(u16, u16)> = Vec::new();
    initial_memory.push((0x0010, 15));
    initial_memory.push((0x0011, 27));
    assert(initial_memory@ == seq![(0x0010u16, 15u16), (0x0011u16, 27u16)]);
    let mut expected_memory: Vec<(u16, u16)> = Vec::new();
    expected_memory.push((0x0012, 42));
    let mut test_cases: Vec<TestCase> = Vec::new();
    test_cases.push(
        TestCase {
            name: "Memory[0x0012] should contain 42 (15 + 27)".to_owned(),
            initial_memory,
            expected_acc: None,
            expected_memory,
            expected_xr1: None,
        },
    );
    Challenge {
        id: 2,
        title: "Challenge 2: Add Two Numbers".to_owned(),
        description: ADD_NUMBERS_DESCRIPTION.to_owned(),
        difficulty: Difficulty::Beginner,
        test_cases,
        max_cycles: Some(200),
        max_instructions: Some(20),
        hints: four_texts(
            "First, load the value from 0x0010 into ACC",
            "Then, add the value from 0x0011 to ACC",
            "Finally, store ACC to 0x0012",
            "Example: LD 0 0x10, A 0 0x11, STO 0 0x12",
        ),
        learning_objectives: three_texts(
            "Chain multiple instructions together",
            "Use the A instruction for addition",
            "Store results with STO",
        ),
    }
}

/// The third challenge: use the index register.
pub fn challenge_3_use_index_register() -> (c: Challenge)
    ensures
        is_use_index_register(&c),
{
    let mut initial_memory: Vec<(u16, u16)> = Vec::new();
    initial_memory.push((0x0015, 100));
    let mut test_cases: Vec<TestCase> = Vec::new();
    test_cases.push(
        TestCase {
            name: "ACC should contain 100 using indexed load".to_owned(),
            initial_memory,
            expected_acc: Some(100),
            expected_memory: Vec::new(),
            expected_xr1: Some(5),
        },
    );
    Challenge {
        id: 3,
        title: "Challenge 3: Use Index Register".to_owned(),
        description: USE_INDEX_REGISTER_DESCRIPTION.to_owned(),
        difficulty: Difficulty::Beginner,
        test_cases,
        max_cycles: Some(200),
        max_instructions: Some(15),
        hints: four_texts(
            "First store 5 into memory location 0x0001 (XR1)",
            "Use STO with index: STO 1 addr stores ACC to memory[addr]",
            "Wait, you need to get 5 into ACC first, then store it at 0x0001",
            "Then use LD 1 0x10 to load from address (0x10 + XR1) = 0x15",
        ),
        learning_objectives: three_texts(
            "Understand index registers",
            "Learn indexed addressing mode",
            "Practice multi-step operations",
        ),
    }
}

/// The complaint about a number that no challenge has.
pub open spec fn not_found(challenge_id: u32) -> Seq<char> {
    "Challenge "@ + decimal(challenge_id as nat) + " not found"@
}

/// Whether `result` is what the challenge with the number `challenge_id`
/// finds in the state `cpu`.
pub open spec fn judged_by(challenge_id: u32, cpu: CpuView, result: ValidationResult) -> bool {
    exists|c: Challenge|
        {
            &&& c.id == challenge_id
            &&& is_load_value(&c) || is_add_numbers(&c) || is_use_index_register(&c)
            &&& #[trigger] c.judged(cpu, result)
        }
}

/// Runs the tests of the challenge with the number `challenge_id` on the
/// state of a processor. The error says that there is no such challenge.
pub fn check_challenge(cpu: &CpuState, challenge_id: u32) -> (r: Result<ValidationResult, String>)
    ensures
        1 <= challenge_id <= 3 ==> r is Ok && judged_by(challenge_id, cpu@, r.unwrap()),
        !(1 <= challenge_id <= 3) ==> r is Err && r.unwrap_err()@ == not_found(challenge_id),
{
    let challenges = get_all_challenges();
    let mut i: usize = 0;
    while i < challenges.len()
        invariant
            i <= challenges@.len() == 3,
            is_load_value(&challenges@[0]),
            is_add_numbers(&challenges@[1]),
            is_use_index_register(&challenges@[2]),
            forall|k: int| 0 <= k < i ==> (#[trigger] challenges@[k]).id != challenge_id,
        decreases challenges@.len() - i,
    {
        if challenges[i].id == challenge_id {
            let r = challenges[i].validate_solution(cpu);
            return r;
        }
        i += 1;
    }
    let mut text = String::new();
    push_text(&mut text, "Challenge ");
    push_decimal(&mut text, challenge_id as u64);
    push_text(&mut text, " not found");
    Err(text)
}

} // verus!
