use ibm1130::console::{
    get_bit, set_bit, toggle_bit, ConsoleAction, ConsoleState, ControlState, IndicatorState,
    PanelMode, Registers, SpeedMode, Tab,
};

#[test]
fn test_speed_mode_labels() {
    assert_eq!(SpeedMode::SS.label(), "SS");
    assert_eq!(SpeedMode::IntRun.label(), "INT RUN");
    assert_eq!(SpeedMode::Load.label(), "LOAD");
}

#[test]
fn test_speed_mode_from_index() {
    assert_eq!(SpeedMode::from_index(0), Some(SpeedMode::SS));
    assert_eq!(SpeedMode::from_index(3), Some(SpeedMode::Run));
    assert_eq!(SpeedMode::from_index(6), Some(SpeedMode::Load));
    assert_eq!(SpeedMode::from_index(7), None);
}

#[test]
fn test_speed_mode_all() {
    let all = SpeedMode::all();
    assert_eq!(all.len(), 7);
    assert_eq!(all[0], SpeedMode::SS);
    assert_eq!(all[6], SpeedMode::Load);
}

#[test]
fn test_default_mode() {
    assert_eq!(SpeedMode::default(), SpeedMode::Run);
}

#[test]
fn test_console_state_default() {
    let state = ConsoleState::default();
    assert_eq!(state.switches, 0);
    assert!(!state.power_on);
    assert!(!state.running);
    assert_eq!(state.speed_mode, SpeedMode::Run);
}

#[test]
fn test_registers_default() {
    let regs = Registers::default();
    assert_eq!(regs.acc, 0);
    assert_eq!(regs.ext, 0);
    assert_eq!(regs.iar, 0);
    assert_eq!(regs.sar, 0);
    assert_eq!(regs.sbr, 0);
    assert_eq!(regs.afr, 0);
}

#[test]
fn test_load_action() {
    let state = ConsoleState {
        power_on: true,
        switches: 0x1234,
        ..ConsoleState::default()
    };
    let state = std::rc::Rc::new(state);
    let new_state = state.reduce(ConsoleAction::Load);
    assert_eq!(new_state.registers.iar, 0x1234);
}

#[test]
fn test_indicator_state() {
    let off = IndicatorState::Off;
    let on = IndicatorState::On;
    assert_ne!(off, on);
}

#[test]
fn test_bit_extraction() {
    let value: u16 = 0x8001; // MSB and LSB set

    // Check MSB (bit 0)
    assert_eq!((value >> 15) & 1, 1);

    // Check LSB (bit 15)
    assert_eq!((value >> 0) & 1, 1);

    // Check middle bit (bit 8)
    assert_eq!((value >> 7) & 1, 0);
}

#[test]
fn test_get_bit() {
    assert!(get_bit(0x8000, 0)); // MSB set
    assert!(!get_bit(0x8000, 1));
    assert!(get_bit(0x0001, 15)); // LSB set
    assert!(!get_bit(0x0001, 0));
}

#[test]
fn test_set_bit() {
    assert_eq!(set_bit(0x0000, 0, true), 0x8000);
    assert_eq!(set_bit(0x8000, 0, false), 0x0000);
    assert_eq!(set_bit(0x0000, 15, true), 0x0001);
}

#[test]
fn test_toggle_bit() {
    assert_eq!(toggle_bit(0x0000, 0), 0x8000);
    assert_eq!(toggle_bit(0x8000, 0), 0x0000);
    assert_eq!(toggle_bit(0xFFFF, 8), 0xFF7F);
}

#[test]
fn test_panel_mode_default() {
    assert_eq!(PanelMode::default(), PanelMode::Interactive);
}

#[test]
fn test_tab_labels() {
    assert_eq!(Tab::Keypunch.label(), "Keypunch");
    assert_eq!(Tab::Printer.label(), "Printer");
    assert_eq!(Tab::Assembler.label(), "Assembler Game");
    assert_eq!(Tab::Console.label(), "Console");
}

#[test]
fn test_tab_all() {
    let all = Tab::all();
    assert_eq!(all.len(), 4);
    assert_eq!(all[0], Tab::Keypunch);
    assert_eq!(all[3], Tab::Console);
}

#[test]
fn test_default_tab() {
    assert_eq!(Tab::default(), Tab::Assembler);
}

#[test]
fn bits_are_counted_from_the_left() {
    for bit in 0..16u8 {
        let mask = 0x8000u16 >> bit;
        for value in [0u16, 0xFFFF, 0xA5A5, 0x5A5A, 0x8001, 0x0180] {
            assert_eq!(get_bit(value, bit), value & mask != 0);
            assert_eq!(set_bit(value, bit, true), value | mask);
            assert_eq!(set_bit(value, bit, false), value & !mask);
            assert_eq!(toggle_bit(value, bit), value ^ mask);
            assert_eq!(toggle_bit(toggle_bit(value, bit), bit), value);
            assert!(get_bit(set_bit(value, bit, true), bit));
            assert!(!get_bit(set_bit(value, bit, false), bit));
            for other in 0..16u8 {
                if other != bit {
                    assert_eq!(
                        get_bit(set_bit(value, bit, true), other),
                        get_bit(value, other)
                    );
                    assert_eq!(get_bit(toggle_bit(value, bit), other), get_bit(value, other));
                }
            }
        }
    }
}

#[test]
fn every_knob_position_has_its_place_and_label() {
    let labels = ["SS", "SMC", "INT RUN", "RUN", "SI", "DISP", "LOAD"];
    let all = SpeedMode::all();
    for i in 0..7 {
        assert_eq!(SpeedMode::from_index(i), Some(all[i]));
        assert_eq!(all[i].label(), labels[i]);
        assert_eq!(all[i] as usize, i);
    }
    assert_eq!(SpeedMode::from_index(8), None);
    assert_eq!(SpeedMode::from_index(usize::MAX), None);
    let tabs = Tab::all();
    assert_eq!(tabs[1], Tab::Printer);
    assert_eq!(tabs[2], Tab::Assembler);
}

#[test]
fn a_fresh_console_is_off() {
    let state = ConsoleState::default();
    assert_eq!(state.registers, Registers::default());
    assert_eq!(state.control, ControlState::default());
    assert!(!state.lamp_test);
    let control = ControlState::default();
    assert_eq!(control.op_code, 0);
    assert_eq!(control.tag, 0);
    assert_eq!(control.cycle, 0);
    assert!(!control.format && !control.wait && !control.indirect);
    assert!(!control.carry && !control.overflow);
}

fn powered() -> ConsoleState {
    ConsoleState {
        power_on: true,
        switches: 0x0F0F,
        registers: Registers {
            acc: 1,
            ext: 2,
            iar: 0xFFFF,
            sar: 4,
            sbr: 5,
            afr: 6,
        },
        ..ConsoleState::default()
    }
}

#[test]
fn the_keys_act_on_a_console_with_power() {
    let state = powered();
    let loaded = state.reduce(ConsoleAction::Load);
    assert_eq!(loaded.registers.iar, 0x0F0F);
    assert_eq!(loaded.registers.sbr, 5);
    let deposited = state.reduce(ConsoleAction::Deposit);
    assert_eq!(deposited.registers.sbr, 0x0F0F);
    assert_eq!(deposited.registers.iar, 0xFFFF);
    // The address wraps at sixteen bits.
    let next = state.reduce(ConsoleAction::DepositNext);
    assert_eq!(next.registers.iar, 0);
    assert_eq!(next.registers.sbr, 0x0F0F);
    let examined = state.reduce(ConsoleAction::Examine);
    assert_eq!(examined.registers.sar, 0xFFFF);
    assert_eq!(examined.registers.iar, 0xFFFF);
    let next = state.reduce(ConsoleAction::ExamineNext);
    assert_eq!(next.registers.iar, 0);
    assert_eq!(next.registers.sar, 0);
    let running = state.reduce(ConsoleAction::ToggleRunning);
    assert!(running.running);
    assert!(!running.reduce(ConsoleAction::ToggleRunning).running);
    // Nothing else changes.
    assert_eq!(running.registers, state.registers);
    assert_eq!(loaded.registers.acc, 1);
    assert_eq!(loaded.switches, 0x0F0F);
}

#[test]
fn the_keys_do_nothing_without_power() {
    let state = ConsoleState {
        power_on: false,
        ..powered()
    };
    for action in [
        ConsoleAction::Load,
        ConsoleAction::Deposit,
        ConsoleAction::DepositNext,
        ConsoleAction::Examine,
        ConsoleAction::ExamineNext,
        ConsoleAction::ToggleRunning,
    ] {
        assert!(state.reduce(action) == state);
    }
}

#[test]
fn switches_knob_and_lamps_work_without_power() {
    let state = ConsoleState::default();
    let set = state.reduce(ConsoleAction::SetSwitches(0xBEEF));
    assert_eq!(set.switches, 0xBEEF);
    let turned = state.reduce(ConsoleAction::SetSpeedMode(SpeedMode::SI));
    assert_eq!(turned.speed_mode, SpeedMode::SI);
    let lamps = state.reduce(ConsoleAction::SetLampTest(true));
    assert!(lamps.lamp_test);
    assert!(!lamps.reduce(ConsoleAction::SetLampTest(false)).lamp_test);
    let registers = Registers {
        acc: 9,
        ..Registers::default()
    };
    let shown = state.reduce(ConsoleAction::UpdateRegisters(registers));
    assert_eq!(shown.registers, registers);
    assert!(!shown.power_on);
}

#[test]
fn switching_off_stops_the_machine() {
    let running = powered().reduce(ConsoleAction::ToggleRunning);
    assert!(running.running && running.power_on);
    let off = running.reduce(ConsoleAction::TogglePower);
    assert!(!off.power_on);
    assert!(!off.running);
    // Switching on again does not start it.
    let on = off.reduce(ConsoleAction::TogglePower);
    assert!(on.power_on);
    assert!(!on.running);
    assert_eq!(on.registers, running.registers);
}

#[test]
fn a_reset_clears_the_registers_and_stops() {
    let running = powered().reduce(ConsoleAction::ToggleRunning);
    let reset = running.reduce(ConsoleAction::Reset);
    assert_eq!(reset.registers, Registers::default());
    assert!(!reset.running);
    assert!(reset.power_on);
    assert_eq!(reset.switches, 0x0F0F);
    // A reset works without power too.
    let off = ConsoleState {
        power_on: false,
        ..powered()
    };
    assert_eq!(off.reduce(ConsoleAction::Reset).registers, Registers::default());
}

#[test]
fn a_panel_counts_by_itself_or_takes_the_switches() {
    assert_eq!(PanelMode::AutoIncrement.tick(7), 8);
    assert_eq!(PanelMode::AutoIncrement.tick(0xFFFF), 0);
    assert_eq!(PanelMode::AutoDecrement.tick(7), 6);
    assert_eq!(PanelMode::AutoDecrement.tick(0), 0xFFFF);
    assert_eq!(PanelMode::Interactive.tick(7), 7);
    assert_eq!(PanelMode::Display.tick(7), 7);
    assert_eq!(PanelMode::Interactive.flip(0, 0), 0x8000);
    assert_eq!(PanelMode::Interactive.flip(0xFFFF, 15), 0xFFFE);
    assert_eq!(PanelMode::Display.flip(0, 0), 0);
    assert_eq!(PanelMode::AutoIncrement.flip(0, 3), 0);
    assert_eq!(PanelMode::AutoDecrement.flip(5, 3), 5);
}
