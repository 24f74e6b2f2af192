use ibm1130::{AddressingMode, BranchCondition, Instruction};

#[test]
fn test_branch_condition_str() {
    assert_eq!(BranchCondition::Zero.to_str(), "Z");
    assert_eq!(BranchCondition::NonZero.to_str(), "NZ");
    assert_eq!(BranchCondition::Positive.to_str(), "P");
}

#[test]
fn test_branch_condition_parse() {
    assert_eq!(BranchCondition::parse("Z"), Some(BranchCondition::Zero));
    assert_eq!(BranchCondition::parse("nz"), Some(BranchCondition::NonZero));
    assert_eq!(BranchCondition::parse("invalid"), None);
}

#[test]
fn test_instruction_mnemonic() {
    let ld = Instruction::LD {
        addr: 100,
        mode: AddressingMode::Direct,
    };
    assert_eq!(ld.mnemonic(), "LD");

    let wait = Instruction::WAIT;
    assert_eq!(wait.mnemonic(), "WAIT");
}

#[test]
fn every_condition_has_its_letters() {
    let all = [
        (BranchCondition::Zero, "Z"),
        (BranchCondition::NonZero, "NZ"),
        (BranchCondition::Positive, "P"),
        (BranchCondition::Negative, "N"),
        (BranchCondition::Overflow, "V"),
        (BranchCondition::Carry, "C"),
    ];
    for (condition, letters) in all {
        assert_eq!(condition.to_str(), letters);
        assert_eq!(BranchCondition::parse(letters), Some(condition));
        assert_eq!(BranchCondition::parse(&letters.to_lowercase()), Some(condition));
        assert_eq!(BranchCondition::from_letters(letters), Some(condition));
    }
}

#[test]
fn condition_letters_are_exact() {
    assert_eq!(BranchCondition::parse(""), None);
    assert_eq!(BranchCondition::parse("ZZ"), None);
    assert_eq!(BranchCondition::parse(" Z"), None);
    assert_eq!(BranchCondition::parse("Z "), None);
    assert_eq!(BranchCondition::parse("O"), None);
    // Upper case is taken before the letters are compared, so lower case
    // letters are no letters of a condition by themselves.
    assert_eq!(BranchCondition::from_letters("z"), None);
    assert_eq!(BranchCondition::from_letters("nz"), None);
    assert_eq!(BranchCondition::parse("nZ"), Some(BranchCondition::NonZero));
}

#[test]
fn every_instruction_has_its_mnemonic() {
    let direct = AddressingMode::Direct;
    let all = [
        (Instruction::LD { addr: 0, mode: direct }, "LD"),
        (Instruction::STO { addr: 0, mode: direct }, "STO"),
        (Instruction::LDX { addr: 0 }, "LDX"),
        (Instruction::STX { addr: 0 }, "STX"),
        (Instruction::A { addr: 0, mode: direct }, "A"),
        (Instruction::S { addr: 0, mode: direct }, "S"),
        (Instruction::AND { addr: 0, mode: direct }, "AND"),
        (Instruction::OR { addr: 0, mode: direct }, "OR"),
        (Instruction::SLA { count: 0 }, "SLA"),
        (Instruction::SRA { count: 0 }, "SRA"),
        (
            Instruction::BSC {
                addr: 0,
                condition: BranchCondition::Zero,
            },
            "BSC",
        ),
        (Instruction::BSI { addr: 0 }, "BSI"),
        (Instruction::WAIT, "WAIT"),
        (Instruction::NOP, "NOP"),
    ];
    for (instr, mnemonic) in all {
        assert_eq!(instr.mnemonic(), mnemonic);
    }
}
