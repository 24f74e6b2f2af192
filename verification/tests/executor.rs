use ibm1130::{AddressingMode, BranchCondition, CpuError, CpuState, Instruction};

#[test]
fn test_ld_direct() {
    let mut cpu = CpuState::new();
    cpu.write_word(0x50, 0x1234).unwrap();

    let instr = Instruction::LD {
        addr: 0x50,
        mode: AddressingMode::Direct,
    };
    cpu.execute(&instr).unwrap();

    assert_eq!(cpu.read_acc(), 0x1234);
    assert_eq!(cpu.instruction_count(), 1);
}

#[test]
fn test_ld_indexed() {
    let mut cpu = CpuState::new();
    cpu.write_xr1(5);
    cpu.write_word(105, 0xABCD).unwrap();

    let instr = Instruction::LD {
        addr: 100,
        mode: AddressingMode::Indexed,
    };
    cpu.execute(&instr).unwrap();

    assert_eq!(cpu.read_acc(), 0xABCD);
}

#[test]
fn test_sto() {
    let mut cpu = CpuState::new();
    cpu.write_acc(0x5678);

    let instr = Instruction::STO {
        addr: 0x60,
        mode: AddressingMode::Direct,
    };
    cpu.execute(&instr).unwrap();

    assert_eq!(cpu.read_word(0x60).unwrap(), 0x5678);
}

#[test]
fn test_add() {
    let mut cpu = CpuState::new();
    cpu.write_acc(10);
    cpu.write_word(0x50, 20).unwrap();

    let instr = Instruction::A {
        addr: 0x50,
        mode: AddressingMode::Direct,
    };
    cpu.execute(&instr).unwrap();

    assert_eq!(cpu.read_acc(), 30);
}

#[test]
fn test_add_overflow() {
    let mut cpu = CpuState::new();
    cpu.write_acc(0xFFFF);
    cpu.write_word(0x50, 1).unwrap();

    let instr = Instruction::A {
        addr: 0x50,
        mode: AddressingMode::Direct,
    };
    cpu.execute(&instr).unwrap();

    assert_eq!(cpu.read_acc(), 0);
    assert!(cpu.carry());
}

#[test]
fn test_sub() {
    let mut cpu = CpuState::new();
    cpu.write_acc(30);
    cpu.write_word(0x50, 10).unwrap();

    let instr = Instruction::S {
        addr: 0x50,
        mode: AddressingMode::Direct,
    };
    cpu.execute(&instr).unwrap();

    assert_eq!(cpu.read_acc(), 20);
}

#[test]
fn test_and() {
    let mut cpu = CpuState::new();
    cpu.write_acc(0b1111_0000);
    cpu.write_word(0x50, 0b1010_1010).unwrap();

    let instr = Instruction::AND {
        addr: 0x50,
        mode: AddressingMode::Direct,
    };
    cpu.execute(&instr).unwrap();

    assert_eq!(cpu.read_acc(), 0b1010_0000);
}

#[test]
fn test_or() {
    let mut cpu = CpuState::new();
    cpu.write_acc(0b1111_0000);
    cpu.write_word(0x50, 0b0000_1111).unwrap();

    let instr = Instruction::OR {
        addr: 0x50,
        mode: AddressingMode::Direct,
    };
    cpu.execute(&instr).unwrap();

    assert_eq!(cpu.read_acc(), 0b1111_1111);
}

#[test]
fn test_sla() {
    let mut cpu = CpuState::new();
    cpu.write_acc(0b0000_0001);

    let instr = Instruction::SLA { count: 3 };
    cpu.execute(&instr).unwrap();

    assert_eq!(cpu.read_acc(), 0b0000_1000);
}

#[test]
fn test_sra() {
    let mut cpu = CpuState::new();
    cpu.write_acc(0b1000_0000_0000_0000); // Negative number

    let instr = Instruction::SRA { count: 2 };
    cpu.execute(&instr).unwrap();

    // Arithmetic shift preserves sign
    assert_eq!(cpu.read_acc(), 0b1110_0000_0000_0000);
}

#[test]
fn test_bsc_zero() {
    let mut cpu = CpuState::new();
    cpu.write_acc(0);
    cpu.set_iar(0x10).unwrap();

    let instr = Instruction::BSC {
        addr: 0x50,
        condition: BranchCondition::Zero,
    };
    cpu.execute(&instr).unwrap();

    assert_eq!(cpu.iar(), 0x50);
}

#[test]
fn test_bsc_no_branch() {
    let mut cpu = CpuState::new();
    cpu.write_acc(5);
    cpu.set_iar(0x10).unwrap();

    let instr = Instruction::BSC {
        addr: 0x50,
        condition: BranchCondition::Zero,
    };
    cpu.execute(&instr).unwrap();

    assert_eq!(cpu.iar(), 0x10); // Should not branch
}

#[test]
fn test_wait() {
    let mut cpu = CpuState::new();

    let instr = Instruction::WAIT;
    cpu.execute(&instr).unwrap();

    assert!(cpu.is_halted());
}

#[test]
fn test_nop() {
    let mut cpu = CpuState::new();
    let initial_state = cpu.read_acc();

    let instr = Instruction::NOP;
    cpu.execute(&instr).unwrap();

    assert_eq!(cpu.read_acc(), initial_state);
    assert_eq!(cpu.instruction_count(), 1);
}

/// Everything that can be seen of a processor.
fn snapshot(cpu: &CpuState) -> (u16, u16, u16, bool, bool, bool, u64, u64, Vec<u16>) {
    (
        cpu.read_acc(),
        cpu.read_ext(),
        cpu.iar(),
        cpu.carry(),
        cpu.overflow(),
        cpu.is_halted(),
        cpu.cycle_count(),
        cpu.instruction_count(),
        cpu.memory().to_vec(),
    )
}

const DIRECT: AddressingMode = AddressingMode::Direct;
const INDEXED: AddressingMode = AddressingMode::Indexed;

#[test]
fn a_halted_processor_rejects_every_instruction() {
    let mut cpu = CpuState::new();
    cpu.write_acc(0x1234);
    cpu.write_word(0x50, 0x0F0F).unwrap();
    cpu.write_xr1(3);
    assert_eq!(cpu.execute(&Instruction::WAIT), Ok(()));
    assert!(cpu.is_halted());
    assert_eq!(cpu.instruction_count(), 1);
    assert_eq!(cpu.cycle_count(), 1);
    let before = snapshot(&cpu);
    let all = [
        Instruction::LD { addr: 0x50, mode: DIRECT },
        Instruction::STO { addr: 0x51, mode: INDEXED },
        Instruction::LDX { addr: 0x50 },
        Instruction::STX { addr: 0x52 },
        Instruction::A { addr: 0x50, mode: DIRECT },
        Instruction::S { addr: 0x50, mode: DIRECT },
        Instruction::AND { addr: 0x50, mode: DIRECT },
        Instruction::OR { addr: 0x50, mode: DIRECT },
        Instruction::SLA { count: 1 },
        Instruction::SRA { count: 1 },
        Instruction::BSC { addr: 0x60, condition: BranchCondition::NonZero },
        Instruction::BSI { addr: 0x60 },
        Instruction::WAIT,
        Instruction::NOP,
        Instruction::LD { addr: 0xFFFF, mode: DIRECT },
    ];
    for instr in all {
        assert_eq!(cpu.execute(&instr), Err(CpuError::Halted));
        assert_eq!(snapshot(&cpu), before);
    }
    cpu.resume();
    assert_eq!(cpu.execute(&Instruction::NOP), Ok(()));
    assert_eq!(cpu.instruction_count(), 2);
}

#[test]
fn every_executed_instruction_counts_once() {
    let mut cpu = CpuState::new();
    cpu.execute(&Instruction::NOP).unwrap();
    cpu.execute(&Instruction::SLA { count: 1 }).unwrap();
    cpu.execute(&Instruction::LD { addr: 0x20, mode: DIRECT }).unwrap();
    assert_eq!(cpu.instruction_count(), 3);
    assert_eq!(cpu.cycle_count(), 3);
    // A failed instruction does not count.
    assert_eq!(
        cpu.execute(&Instruction::LD { addr: 0x1000, mode: DIRECT }),
        Err(CpuError::MemoryOutOfBounds(0x1000))
    );
    assert_eq!(cpu.instruction_count(), 3);
    assert_eq!(cpu.cycle_count(), 3);
}

#[test]
fn indexed_addressing_adds_the_first_index_register() {
    let mut cpu = CpuState::new();
    cpu.write_xr1(0x0100);
    cpu.write_word(0x0150, 0xCAFE).unwrap();
    cpu.execute(&Instruction::LD { addr: 0x50, mode: INDEXED }).unwrap();
    assert_eq!(cpu.read_acc(), 0xCAFE);
    // The second and third index registers play no part.
    cpu.write_xr2(0x0200);
    cpu.write_xr3(0x0300);
    cpu.write_acc(0);
    cpu.execute(&Instruction::LD { addr: 0x50, mode: INDEXED }).unwrap();
    assert_eq!(cpu.read_acc(), 0xCAFE);
}

#[test]
fn indexed_addressing_wraps_at_sixteen_bits() {
    let mut cpu = CpuState::new();
    // 0xFFF0 + 0x0030 = 0x1_0020, which is the word 0x0020.
    cpu.write_xr1(0x0030);
    cpu.write_word(0x0020, 0x7777).unwrap();
    cpu.execute(&Instruction::LD { addr: 0xFFF0, mode: INDEXED }).unwrap();
    assert_eq!(cpu.read_acc(), 0x7777);
    cpu.write_acc(0x1357);
    cpu.execute(&Instruction::STO { addr: 0xFFF1, mode: INDEXED }).unwrap();
    assert_eq!(cpu.read_word(0x0021), Ok(0x1357));
}

#[test]
fn an_effective_address_outside_memory_fails_and_changes_nothing() {
    let mut cpu = CpuState::new();
    cpu.write_acc(0x00AA);
    cpu.write_xr1(0x0FFF);
    let before = snapshot(&cpu);
    let failing = [
        (Instruction::LD { addr: 1, mode: INDEXED }, 0x1000),
        (Instruction::STO { addr: 1, mode: INDEXED }, 0x1000),
        (Instruction::A { addr: 0x2000, mode: DIRECT }, 0x2000),
        (Instruction::S { addr: 0xF000, mode: INDEXED }, 0xFFFF),
        (Instruction::AND { addr: 0x1000, mode: DIRECT }, 0x1000),
        (Instruction::OR { addr: 0xFFFF, mode: DIRECT }, 0xFFFF),
        (Instruction::LDX { addr: 0x1000 }, 0x1000),
        (Instruction::STX { addr: 0x1234 }, 0x1234),
    ];
    for (instr, at) in failing {
        assert_eq!(cpu.execute(&instr), Err(CpuError::MemoryOutOfBounds(at)));
        assert_eq!(snapshot(&cpu), before);
    }
    // The last word is in reach.
    assert_eq!(cpu.execute(&Instruction::STO { addr: 0, mode: INDEXED }), Ok(()));
    assert_eq!(cpu.read_word(0x0FFF), Ok(0x00AA));
}

#[test]
fn ldx_and_stx_use_the_address_as_it_stands() {
    let mut cpu = CpuState::new();
    cpu.write_word(0x40, 9).unwrap();
    cpu.execute(&Instruction::LDX { addr: 0x40 }).unwrap();
    assert_eq!(cpu.read_xr1(), 9);
    assert_eq!(cpu.read_word(1), Ok(9));
    cpu.execute(&Instruction::STX { addr: 0x41 }).unwrap();
    assert_eq!(cpu.read_word(0x41), Ok(9));
    // Not 0x41 + 9.
    assert_eq!(cpu.read_word(0x4A), Ok(0));
    // The index register is a word like others: a store reaches it.
    cpu.write_acc(0x22);
    cpu.execute(&Instruction::STO { addr: 1, mode: DIRECT }).unwrap();
    assert_eq!(cpu.read_xr1(), 0x22);
}

#[test]
fn add_sets_carry_and_overflow() {
    // (acc, word, result, carry, overflow)
    let cases: [(u16, u16, u16, bool, bool); 6] = [
        (10, 20, 30, false, false),
        (0xFFFF, 1, 0, true, false),
        (0x7FFF, 1, 0x8000, false, true),
        (0x8000, 0x8000, 0, true, true),
        (0x8000, 0xFFFF, 0x7FFF, true, true),
        (0x1234, 0, 0x1234, false, false),
    ];
    for (acc, word, result, carry, overflow) in cases {
        let mut cpu = CpuState::new();
        cpu.write_acc(acc);
        cpu.write_word(0x50, word).unwrap();
        // The flags are set anew, whatever they were.
        cpu.set_carry(!carry);
        cpu.set_overflow(!overflow);
        cpu.execute(&Instruction::A { addr: 0x50, mode: DIRECT }).unwrap();
        assert_eq!(cpu.read_acc(), result);
        assert_eq!(cpu.carry(), carry);
        assert_eq!(cpu.overflow(), overflow);
    }
}

#[test]
fn sub_sets_carry_and_overflow() {
    let cases: [(u16, u16, u16, bool, bool); 6] = [
        (30, 10, 20, false, false),
        (5, 10, 0xFFFB, true, false),
        (0x8000, 1, 0x7FFF, false, true),
        (0x7FFF, 0xFFFF, 0x8000, true, true),
        (0, 0, 0, false, false),
        (0, 1, 0xFFFF, true, false),
    ];
    for (acc, word, result, carry, overflow) in cases {
        let mut cpu = CpuState::new();
        cpu.write_acc(acc);
        cpu.write_word(0x50, word).unwrap();
        cpu.set_carry(!carry);
        cpu.set_overflow(!overflow);
        cpu.execute(&Instruction::S { addr: 0x50, mode: DIRECT }).unwrap();
        assert_eq!(cpu.read_acc(), result);
        assert_eq!(cpu.carry(), carry);
        assert_eq!(cpu.overflow(), overflow);
    }
}

#[test]
fn only_add_and_sub_touch_the_flags() {
    let mut cpu = CpuState::new();
    cpu.set_carry(true);
    cpu.set_overflow(true);
    cpu.write_word(0x50, 0xFFFF).unwrap();
    let others = [
        Instruction::LD { addr: 0x50, mode: DIRECT },
        Instruction::STO { addr: 0x51, mode: DIRECT },
        Instruction::LDX { addr: 0x50 },
        Instruction::STX { addr: 0x52 },
        Instruction::AND { addr: 0x50, mode: DIRECT },
        Instruction::OR { addr: 0x50, mode: DIRECT },
        Instruction::SLA { count: 9 },
        Instruction::SRA { count: 9 },
        Instruction::BSC { addr: 0x60, condition: BranchCondition::Carry },
        Instruction::BSI { addr: 0x70 },
        Instruction::NOP,
        Instruction::WAIT,
    ];
    for instr in others {
        cpu.execute(&instr).unwrap();
        assert!(cpu.carry());
        assert!(cpu.overflow());
    }
}

#[test]
fn no_instruction_touches_the_extension_register() {
    let mut cpu = CpuState::new();
    cpu.write_ext(0xE0E0);
    cpu.write_word(0x50, 3).unwrap();
    let all = [
        Instruction::LD { addr: 0x50, mode: DIRECT },
        Instruction::A { addr: 0x50, mode: DIRECT },
        Instruction::S { addr: 0x50, mode: DIRECT },
        Instruction::SLA { count: 2 },
        Instruction::STO { addr: 0x51, mode: DIRECT },
        Instruction::BSI { addr: 0x70 },
        Instruction::WAIT,
    ];
    for instr in all {
        cpu.execute(&instr).unwrap();
        assert_eq!(cpu.read_ext(), 0xE0E0);
    }
}

#[test]
fn shifts_left_lose_the_bits_at_the_top() {
    let cases: [(u16, u8, u16); 8] = [
        (0b1, 3, 0b1000),
        (0xFFFF, 0, 0xFFFF),
        (0xFFFF, 4, 0xFFF0),
        (0x8001, 1, 0x0002),
        (0x0001, 15, 0x8000),
        (0x0001, 16, 0),
        (0xFFFF, 17, 0),
        (0xFFFF, 255, 0),
    ];
    for (acc, count, result) in cases {
        let mut cpu = CpuState::new();
        cpu.write_acc(acc);
        cpu.execute(&Instruction::SLA { count }).unwrap();
        assert_eq!(cpu.read_acc(), result, "{acc:#x} << {count}");
    }
}

#[test]
fn shifts_right_fill_in_the_sign() {
    let cases: [(u16, u8, u16); 10] = [
        (0x8000, 2, 0xE000),
        (0x8000, 0, 0x8000),
        (0x8000, 15, 0xFFFF),
        (0x8000, 16, 0xFFFF),
        (0xFFFF, 200, 0xFFFF),
        (0x7FFF, 1, 0x3FFF),
        (0x7FFF, 14, 0x0001),
        (0x7FFF, 15, 0),
        (0x7FFF, 16, 0),
        (0x4000, 255, 0),
    ];
    for (acc, count, result) in cases {
        let mut cpu = CpuState::new();
        cpu.write_acc(acc);
        cpu.execute(&Instruction::SRA { count }).unwrap();
        assert_eq!(cpu.read_acc(), result, "{acc:#x} >> {count}");
        if count < 16 {
            assert_eq!(result, ((acc as i16) >> count) as u16);
        }
    }
}

#[test]
fn each_condition_branches_when_it_holds() {
    // (condition, acc, carry, overflow, branches)
    let cases: [(BranchCondition, u16, bool, bool, bool); 18] = [
        (BranchCondition::Zero, 0, false, false, true),
        (BranchCondition::Zero, 1, false, false, false),
        (BranchCondition::Zero, 0x8000, false, false, false),
        (BranchCondition::NonZero, 0, false, false, false),
        (BranchCondition::NonZero, 1, false, false, true),
        (BranchCondition::NonZero, 0xFFFF, false, false, true),
        (BranchCondition::Positive, 0, false, false, false),
        (BranchCondition::Positive, 1, false, false, true),
        (BranchCondition::Positive, 0x7FFF, false, false, true),
        (BranchCondition::Positive, 0x8000, false, false, false),
        (BranchCondition::Negative, 0, false, false, false),
        (BranchCondition::Negative, 0x7FFF, false, false, false),
        (BranchCondition::Negative, 0x8000, false, false, true),
        (BranchCondition::Negative, 0xFFFF, false, false, true),
        (BranchCondition::Overflow, 0, true, false, false),
        (BranchCondition::Overflow, 0, false, true, true),
        (BranchCondition::Carry, 0, false, true, false),
        (BranchCondition::Carry, 0, true, false, true),
    ];
    for (condition, acc, carry, overflow, branches) in cases {
        let mut cpu = CpuState::new();
        cpu.write_acc(acc);
        cpu.set_carry(carry);
        cpu.set_overflow(overflow);
        cpu.execute(&Instruction::BSC { addr: 0x123, condition }).unwrap();
        let expected = if branches { 0x123 } else { 0x10 };
        assert_eq!(cpu.iar(), expected, "{condition:?} with acc {acc:#x}");
        assert_eq!(cpu.read_acc(), acc);
        assert_eq!(cpu.instruction_count(), 1);
    }
}

#[test]
fn a_branch_outside_memory_fails_only_when_taken() {
    let mut cpu = CpuState::new();
    cpu.write_acc(1);
    // Not taken: the address does not matter.
    assert_eq!(
        cpu.execute(&Instruction::BSC { addr: 0x1000, condition: BranchCondition::Zero }),
        Ok(())
    );
    assert_eq!(cpu.iar(), 0x10);
    assert_eq!(cpu.instruction_count(), 1);
    // Taken: the processor stays where it is.
    assert_eq!(
        cpu.execute(&Instruction::BSC { addr: 0x1000, condition: BranchCondition::NonZero }),
        Err(CpuError::IarOutOfBounds(0x1000))
    );
    assert_eq!(cpu.iar(), 0x10);
    assert_eq!(cpu.instruction_count(), 1);
    assert_eq!(
        cpu.execute(&Instruction::BSC { addr: 0x0FFF, condition: BranchCondition::NonZero }),
        Ok(())
    );
    assert_eq!(cpu.iar(), 0x0FFF);
}

#[test]
fn bsi_stores_the_instruction_address_and_branches_behind_it() {
    let mut cpu = CpuState::new();
    cpu.set_iar(0x0123).unwrap();
    cpu.execute(&Instruction::BSI { addr: 0x0200 }).unwrap();
    assert_eq!(cpu.read_word(0x0200), Ok(0x0123));
    assert_eq!(cpu.iar(), 0x0201);
    assert_eq!(cpu.instruction_count(), 1);
}

#[test]
fn bsi_takes_effect_as_a_whole_or_not_at_all() {
    let mut cpu = CpuState::new();
    cpu.set_iar(0x0123).unwrap();
    cpu.write_word(0x0FFF, 0x5555).unwrap();
    let before = snapshot(&cpu);
    // The word is in memory, the word behind it is not.
    assert_eq!(
        cpu.execute(&Instruction::BSI { addr: 0x0FFF }),
        Err(CpuError::IarOutOfBounds(0x1000))
    );
    assert_eq!(snapshot(&cpu), before);
    assert_eq!(
        cpu.execute(&Instruction::BSI { addr: 0x1000 }),
        Err(CpuError::MemoryOutOfBounds(0x1000))
    );
    assert_eq!(snapshot(&cpu), before);
    assert_eq!(
        cpu.execute(&Instruction::BSI { addr: 0xFFFF }),
        Err(CpuError::MemoryOutOfBounds(0xFFFF))
    );
    assert_eq!(snapshot(&cpu), before);
    assert_eq!(cpu.execute(&Instruction::BSI { addr: 0x0FFE }), Ok(()));
    assert_eq!(cpu.read_word(0x0FFE), Ok(0x0123));
    assert_eq!(cpu.iar(), 0x0FFF);
}

#[test]
fn logic_works_bit_by_bit() {
    let mut cpu = CpuState::new();
    cpu.write_word(0x50, 0x0FF0).unwrap();
    cpu.write_acc(0x3C3C);
    cpu.execute(&Instruction::AND { addr: 0x50, mode: DIRECT }).unwrap();
    assert_eq!(cpu.read_acc(), 0x0C30);
    cpu.write_acc(0x3C3C);
    cpu.execute(&Instruction::OR { addr: 0x50, mode: DIRECT }).unwrap();
    assert_eq!(cpu.read_acc(), 0x3FFC);
    assert_eq!(cpu.read_word(0x50), Ok(0x0FF0));
}
