use ibm1130::{
    AssemblerError, BranchCondition, CpuError, CpuState, Instruction, MachineError, PROGRAM_START,
};

#[test]
fn a_program_that_adds_two_numbers_runs_to_its_halt() {
    let mut cpu = CpuState::new();
    // The program goes where the processor starts; its data lie behind it.
    let rows = cpu
        .load_source("LD 0 0x20\nA 0 0x21\nSTO 0 0x22\nWAIT", PROGRAM_START)
        .unwrap();
    assert_eq!(rows.len(), 4);
    cpu.write_word(0x20, 15).unwrap();
    cpu.write_word(0x21, 27).unwrap();
    assert_eq!(cpu.run(10000), Ok(()));
    assert!(cpu.is_halted());
    assert_eq!(cpu.read_word(0x22), Ok(42));
    assert_eq!(cpu.read_acc(), 42);
    assert_eq!(cpu.instruction_count(), 4);
    assert_eq!(cpu.cycle_count(), 4);
    // The address moves on behind every instruction, the halt too.
    assert_eq!(cpu.iar(), 0x14);
}

#[test]
fn the_sum_of_fifteen_and_twenty_seven_is_stored() {
    let mut cpu = CpuState::new();
    cpu.load_source("LD 0 0x10\nA 0 0x11\nSTO 0 0x12\nWAIT", 4).unwrap();
    cpu.write_word(0x10, 15).unwrap();
    cpu.write_word(0x11, 27).unwrap();
    cpu.set_iar(4).unwrap();
    cpu.run(20).unwrap();
    assert!(cpu.is_halted());
    assert_eq!(cpu.read_word(0x12), Ok(42));
}

#[test]
fn a_step_decodes_executes_and_moves_on() {
    let mut cpu = CpuState::new();
    cpu.write_word(0x50, 0x1234).unwrap();
    assert_eq!(cpu.step(0x1050), Ok(()));
    assert_eq!(cpu.read_acc(), 0x1234);
    assert_eq!(cpu.iar(), 0x11);
    assert_eq!(cpu.instruction_count(), 1);
    // A halt moves on as well.
    assert_eq!(cpu.step(0xF000), Ok(()));
    assert!(cpu.is_halted());
    assert_eq!(cpu.iar(), 0x12);
    assert_eq!(cpu.step(0x0000), Err(MachineError::Cpu(CpuError::Halted)));
    assert_eq!(cpu.iar(), 0x12);
    assert_eq!(cpu.instruction_count(), 2);
}

#[test]
fn a_step_on_a_word_that_is_no_instruction_changes_nothing() {
    let mut cpu = CpuState::new();
    assert_eq!(
        cpu.step(0xD123),
        Err(MachineError::Assembly(AssemblerError::InvalidMnemonic(
            "Unknown opcode: 0xD".to_string()
        )))
    );
    assert_eq!(
        cpu.step(0xB900),
        Err(MachineError::Assembly(AssemblerError::InvalidCondition(
            "Unknown condition code: 9".to_string()
        )))
    );
    assert_eq!(cpu.iar(), PROGRAM_START);
    assert_eq!(cpu.instruction_count(), 0);
}

#[test]
fn a_step_behind_a_branch_moves_on_from_the_target() {
    let mut cpu = CpuState::new();
    // BSC Z 0x50 with the accumulator zero.
    assert_eq!(cpu.step(0xB050), Ok(()));
    assert_eq!(cpu.iar(), 0x51);
    // BSI 0x60 stores the address and goes two words behind it.
    assert_eq!(cpu.step(0xC060), Ok(()));
    assert_eq!(cpu.read_word(0x60), Ok(0x51));
    assert_eq!(cpu.iar(), 0x62);
}

#[test]
fn a_step_at_the_last_word_executes_and_then_fails() {
    let mut cpu = CpuState::new();
    cpu.set_iar(0x0FFF).unwrap();
    cpu.write_word(0x50, 9).unwrap();
    assert_eq!(
        cpu.step(0x1050),
        Err(MachineError::Cpu(CpuError::IarOutOfBounds(0x1000)))
    );
    // The instruction has taken effect.
    assert_eq!(cpu.read_acc(), 9);
    assert_eq!(cpu.instruction_count(), 1);
    assert_eq!(cpu.iar(), 0x0FFF);
}

#[test]
fn a_run_stops_when_its_steps_are_used_up() {
    let mut cpu = CpuState::new();
    // Memory is all zero, and zero is NOP.
    assert_eq!(cpu.run(5), Ok(()));
    assert_eq!(cpu.instruction_count(), 5);
    assert_eq!(cpu.iar(), 0x15);
    assert!(!cpu.is_halted());
    assert_eq!(cpu.run(0), Ok(()));
    assert_eq!(cpu.instruction_count(), 5);
}

#[test]
fn a_run_does_nothing_on_a_halted_processor() {
    let mut cpu = CpuState::new();
    cpu.halt();
    assert_eq!(cpu.run(100), Ok(()));
    assert_eq!(cpu.instruction_count(), 0);
    assert_eq!(cpu.iar(), PROGRAM_START);
}

#[test]
fn a_run_stops_at_the_first_error() {
    let mut cpu = CpuState::new();
    cpu.load_program(0x10, &[0x0000, 0x1110, 0xD000, 0xF000]).unwrap();
    cpu.write_xr1(0x0FF0);
    // LD 1 0x10 reads the word 0x1000, which is outside memory.
    assert_eq!(
        cpu.run(100),
        Err(MachineError::Cpu(CpuError::MemoryOutOfBounds(0x1000)))
    );
    assert_eq!(cpu.iar(), 0x11);
    assert_eq!(cpu.instruction_count(), 1);
    // With the index register cleared the run gets one word further.
    cpu.write_xr1(0);
    assert_eq!(
        cpu.run(100),
        Err(MachineError::Assembly(AssemblerError::InvalidMnemonic(
            "Unknown opcode: 0xD".to_string()
        )))
    );
    assert_eq!(cpu.iar(), 0x12);
    assert_eq!(cpu.instruction_count(), 2);
}

#[test]
fn a_run_off_the_end_of_memory_fails() {
    let mut cpu = CpuState::new();
    cpu.set_iar(0x0FFE).unwrap();
    assert_eq!(
        cpu.run(10),
        Err(MachineError::Cpu(CpuError::IarOutOfBounds(0x1000)))
    );
    assert_eq!(cpu.iar(), 0x0FFF);
    assert_eq!(cpu.instruction_count(), 2);
}

#[test]
fn a_loop_counts_down_to_zero() {
    let mut cpu = CpuState::new();
    let source = "\
        LD 0 0x40      ; the counter\n\
        S 0 0x41       ; minus one\n\
        STO 0 0x40\n\
        BSC NZ 0x0F    ; back to the start, which the step moves on to\n\
        WAIT";
    cpu.load_source(source, PROGRAM_START).unwrap();
    cpu.write_word(0x40, 3).unwrap();
    cpu.write_word(0x41, 1).unwrap();
    assert_eq!(cpu.run(1000), Ok(()));
    assert!(cpu.is_halted());
    assert_eq!(cpu.read_word(0x40), Ok(0));
    // Three rounds of four instructions, and the halt.
    assert_eq!(cpu.instruction_count(), 13);
}

#[test]
fn a_source_is_loaded_where_it_is_asked_for() {
    let mut cpu = CpuState::new();
    let rows = cpu.load_source("LD 0 5 ; five\n\nNOP\nWAIT", 0x100).unwrap();
    assert_eq!(cpu.memory_slice(0x100, 3).unwrap(), &[0x1005, 0x0000, 0xF000]);
    let listed: Vec<(u16, &str, &str)> = rows
        .iter()
        .map(|r| (r.address, r.opcode.as_str(), r.source.as_str()))
        .collect();
    assert_eq!(
        listed,
        vec![
            (0x100, "0x1005", "LD 0 5"),
            (0x101, "0x0000", "NOP"),
            (0x102, "0xF000", "WAIT"),
        ]
    );
    // Registers stay as they are.
    assert_eq!(cpu.iar(), PROGRAM_START);
}

#[test]
fn a_listing_moves_with_its_program() {
    let mut cpu = CpuState::new();
    // Assembly starts at 0x10; ORG sets the second instruction to 0x40.
    let rows = cpu.load_source("NOP\nORG 0x40\nWAIT", 4).unwrap();
    let addresses: Vec<u16> = rows.iter().map(|r| r.address).collect();
    assert_eq!(addresses, vec![4, 0x34]);
    // The words are loaded one behind the other all the same.
    assert_eq!(cpu.memory_slice(4, 2).unwrap(), &[0x0000, 0xF000]);
    let rows = cpu.load_source("ORG 2\nNOP", 0x20).unwrap();
    assert_eq!(rows[0].address, 0x12);
}

#[test]
fn a_source_at_fault_loads_nothing() {
    let mut cpu = CpuState::new();
    cpu.write_word(0x10, 0xAAAA).unwrap();
    assert_eq!(
        cpu.load_source("NOP\nFOO 0 1", 0x10).unwrap_err(),
        MachineError::Assembly(AssemblerError::InvalidMnemonic("FOO".to_string()))
    );
    assert_eq!(cpu.read_word(0x10), Ok(0xAAAA));
    assert_eq!(
        cpu.load_source("NOP\nNOP", 0x0FFF).unwrap_err(),
        MachineError::Cpu(CpuError::MemoryOutOfBounds(0x0FFF))
    );
    assert_eq!(cpu.read_word(0x0FFF), Ok(0));
    assert_eq!(cpu.load_source("NOP", 0x0FFF).unwrap().len(), 1);
}

#[test]
fn machine_errors_have_the_texts_of_their_causes() {
    assert_eq!(
        MachineError::Cpu(CpuError::Halted).message(),
        "CPU is halted"
    );
    assert_eq!(
        MachineError::Assembly(AssemblerError::InvalidAddress("q".to_string())).message(),
        "Invalid address: q"
    );
}

#[test]
fn a_branch_on_zero_is_taken_exactly_when_the_accumulator_is_zero() {
    let branch = Instruction::BSC { addr: 0x80, condition: BranchCondition::Zero };
    let mut cpu = CpuState::new();
    cpu.write_acc(0);
    cpu.execute(&branch).unwrap();
    assert_eq!(cpu.iar(), 0x80);
    let mut cpu = CpuState::new();
    cpu.write_acc(1);
    cpu.execute(&branch).unwrap();
    assert_eq!(cpu.iar(), PROGRAM_START);
}

#[test]
fn data_lines_set_words_of_memory() {
    let mut cpu = CpuState::new();
    let source = "       ORG  16\n\
                  LD   0 30      ; Load value\n\
                  WAIT\n\
                  DATA 30 5      ; Address 30: value 5\n\
                  \tdata 31 7\r\n\
                  Data 32 65535 and more\n\
                  DATABASE 33 9\n";
    cpu.load_data(source);
    assert_eq!(cpu.read_word(30), Ok(5));
    assert_eq!(cpu.read_word(31), Ok(7));
    assert_eq!(cpu.read_word(32), Ok(65535));
    // The line needs to begin with DATA, no more.
    assert_eq!(cpu.read_word(33), Ok(9));
    // Nothing else has changed.
    assert_eq!(cpu.memory().iter().filter(|w| **w != 0).count(), 4);
    assert_eq!(cpu.iar(), PROGRAM_START);
    assert_eq!(cpu.instruction_count(), 0);
}

#[test]
fn data_lines_of_another_shape_are_passed_over() {
    let mut cpu = CpuState::new();
    let source = "DATA\n\
                  DATA 40\n\
                  DATA 0x29 1\n\
                  DATA 42 0x1\n\
                  DATA 43 65536\n\
                  DATA 4096 1\n\
                  DATA 65535 1\n\
                  DATA -1 1\n\
                  ; DATA 44 1\n\
                  LD 0 45 ; DATA 45 1\n\
                  DATA 46 1;\n\
                  DATA 47;1\n";
    cpu.load_data(source);
    assert!(cpu.memory().iter().all(|w| *w == 0));
    // A later line wins over an earlier one.
    cpu.load_data("DATA 50 1\nDATA +50 2");
    assert_eq!(cpu.read_word(50), Ok(2));
    cpu.load_data("");
    assert_eq!(cpu.read_word(50), Ok(2));
}

#[test]
fn the_largest_budget_is_in_order_where_the_run_ends_before() {
    // A halted processor that has counted runs no step, whatever the budget.
    let mut cpu = CpuState::new();
    cpu.execute(&Instruction::NOP).unwrap();
    cpu.execute(&Instruction::WAIT).unwrap();
    assert_eq!(cpu.instruction_count(), 2);
    assert_eq!(cpu.run(u64::MAX), Ok(()));
    assert_eq!(cpu.instruction_count(), 2);
    assert_eq!(cpu.cycle_count(), 2);
    assert_eq!(cpu.iar(), PROGRAM_START);
    // A program that halts ends the run long before the budget does.
    let mut cpu = CpuState::new();
    cpu.tick();
    cpu.load_source("NOP\nNOP\nWAIT", PROGRAM_START).unwrap();
    assert_eq!(cpu.run(u64::MAX), Ok(()));
    assert!(cpu.is_halted());
    assert_eq!(cpu.instruction_count(), 3);
    assert_eq!(cpu.cycle_count(), 4);
    // And so does a fault.
    let mut cpu = CpuState::new();
    cpu.tick();
    cpu.load_program(PROGRAM_START, &[0x0000, 0xD000]).unwrap();
    assert!(cpu.run(u64::MAX).is_err());
    assert_eq!(cpu.instruction_count(), 1);
}
