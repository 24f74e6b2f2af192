//! The operator's console of the machine as data: the sixteen entry
//! switches, the speed knob, the tabs of the front end, and the state that
//! the keys of the console act on. How any of it is drawn is not here.

use vstd::prelude::*;

verus! {

// ----------------------------------------------------------------------
// Bits of a word, counted from the left
// ----------------------------------------------------------------------

/// The word with only the bit `bit` set. Bits are counted from the most
/// significant one, which is the bit 0, to the least significant one, the
/// bit 15.
pub open spec fn bit_mask(bit: u8) -> u16
    recommends
        bit < 16,
{
    0x8000u16 >> bit
}

/// Whether the bit `bit` of `value` is set.
pub open spec fn bit_of(value: u16, bit: u8) -> bool
    recommends
        bit < 16,
{
    value & bit_mask(bit) != 0
}

/// Whether the bit `bit` of `value` is set.
pub fn get_bit(value: u16, bit: u8) -> (r: bool)
    requires
        bit < 16,
    ensures
        r == bit_of(value, bit),
{
    assert(((value >> (15 - bit) as u8) & 1 == 1) == (value & (0x8000u16 >> bit) != 0))
        by (bit_vector)
        requires
            bit < 16,
    ;
    (value >> (15 - bit)) & 1 == 1
}

/// `value` with the bit `bit` set or cleared.
pub fn set_bit(value: u16, bit: u8, on: bool) -> (r: u16)
    requires
        bit < 16,
    ensures
        r == if on {
            value | bit_mask(bit)
        } else {
            value & !bit_mask(bit)
        },
{
    assert(1u16 << (15 - bit) as u8 == 0x8000u16 >> bit) by (bit_vector)
        requires
            bit < 16,
    ;
    if on {
        value | (1 << (15 - bit))
    } else {
        value & !(1 << (15 - bit))
    }
}

/// `value` with the bit `bit` turned over.
pub fn toggle_bit(value: u16, bit: u8) -> (r: u16)
    requires
        bit < 16,
    ensures
        r == value ^ bit_mask(bit),
{
    assert(1u16 << (15 - bit) as u8 == 0x8000u16 >> bit) by (bit_vector)
        requires
            bit < 16,
    ;
    value ^ (1 << (15 - bit))
}

/// To set or clear a bit makes that bit what was asked for and leaves
/// every other bit as it was.
pub proof fn lemma_set_bit(value: u16, bit: u8, on: bool, other: u8)
    requires
        bit < 16,
        other < 16,
    ensures
        ({
            let r = if on {
                value | bit_mask(bit)
            } else {
                value & !bit_mask(bit)
            };
            &&& bit_of(r, bit) == on
            &&& other != bit ==> bit_of(r, other) == bit_of(value, other)
        }),
{
    let m = bit_mask(bit);
    let o = bit_mask(other);
    assert(((value | m) & m != 0) && ((value & !m) & m == 0) && (other != bit ==> (((value | m)
        & o != 0) == (value & o != 0)) && (((value & !m) & o != 0) == (value & o != 0))))
        by (bit_vector)
        requires
            bit < 16,
            other < 16,
            m == 0x8000u16 >> bit,
            o == 0x8000u16 >> other,
    ;
}

/// To turn a bit over changes that bit, leaves every other bit as it was,
/// and is undone by turning the bit over once more.
pub proof fn lemma_toggle_bit(value: u16, bit: u8, other: u8)
    requires
        bit < 16,
        other < 16,
    ensures
        bit_of(value ^ bit_mask(bit), bit) == !bit_of(value, bit),
        other != bit ==> bit_of(value ^ bit_mask(bit), other) == bit_of(value, other),
        (value ^ bit_mask(bit)) ^ bit_mask(bit) == value,
{
    let m = bit_mask(bit);
    let o = bit_mask(other);
    assert((((value ^ m) & m != 0) == !(value & m != 0)) && (other != bit ==> (((value ^ m) & o
        != 0) == (value & o != 0))) && ((value ^ m) ^ m == value)) by (bit_vector)
        requires
            bit < 16,
            other < 16,
            m == 0x8000u16 >> bit,
            o == 0x8000u16 >> other,
    ;
}

/// How the panel of the sixteen switches behaves.
#[derive(Clone, Copy, PartialEq, Debug)]
pub enum PanelMode {
    /// The operator sets the switches.
    Interactive,
    /// The value counts up by itself.
    AutoIncrement,
    /// The value counts down by itself.
    AutoDecrement,
    /// The value is shown and cannot be set.
    Display,
}

impl Default for PanelMode {
    fn default() -> (r: Self)
        ensures
            r == PanelMode::Interactive,
    {
        PanelMode::Interactive
    }
}

impl PanelMode {
    /// The value that the panel shows one interval after it showed
    /// `current`: one more or one less where the panel counts by itself,
    /// modulo 2^16, and the same otherwise.
    pub open spec fn after_interval(self, current: u16) -> u16 {
        match self {
            PanelMode::AutoIncrement => ((current + 1) % 0x1_0000) as u16,
            PanelMode::AutoDecrement => ((current - 1) % 0x1_0000) as u16,
            _ => current,
        }
    }

    /// The value that the panel shows one interval after it showed
    /// `current`.
    pub fn tick(&self, current: u16) -> (r: u16)
        ensures
            r == self.after_interval(current),
    {
        match self {
            PanelMode::AutoIncrement => current.wrapping_add(1),
            PanelMode::AutoDecrement => current.wrapping_sub(1),
            _ => current,
        }
    }

    /// The value after the operator flipped the switch of the bit `bit`:
    /// only a panel that the operator sets takes it.
    pub fn flip(&self, current: u16, bit: u8) -> (r: u16)
        requires
            bit < 16,
        ensures
            r == if *self == PanelMode::Interactive {
                current ^ bit_mask(bit)
            } else {
                current
            },
    {
        match self {
            PanelMode::Interactive => toggle_bit(current, bit),
            _ => current,
        }
    }
}

/// What an indicator light shows.
#[derive(Clone, Copy, PartialEq, Debug)]
pub enum IndicatorState {
    /// The light is off.
    Off,
    /// The light is on.
    On,
    /// Every light is on, for the lamp test.
    AllOn,
}

// ----------------------------------------------------------------------
// The speed knob
// ----------------------------------------------------------------------

/// The positions of the speed knob, from left to right.
#[derive(Clone, Copy, PartialEq, Eq, Debug)]
pub enum SpeedMode {
    /// Single step.
    SS,
    /// Single memory cycle.
    SMC,
    /// Run with an interrupt after each instruction.
    IntRun,
    /// Run.
    Run,
    /// Single instruction.
    SI,
    /// Display core storage.
    Disp,
    /// Load core storage.
    Load,
}

impl Default for SpeedMode {
    fn default() -> (r: Self)
        ensures
            r == SpeedMode::Run,
    {
        SpeedMode::Run
    }
}

impl SpeedMode {
    /// All positions, from left to right.
    pub open spec fn positions() -> Seq<SpeedMode> {
        seq![
            SpeedMode::SS,
            SpeedMode::SMC,
            SpeedMode::IntRun,
            SpeedMode::Run,
            SpeedMode::SI,
            SpeedMode::Disp,
            SpeedMode::Load,
        ]
    }

    /// The place of this position among all, counted from 0.
    pub open spec fn index(self) -> int {
        match self {
            SpeedMode::SS => 0,
            SpeedMode::SMC => 1,
            SpeedMode::IntRun => 2,
            SpeedMode::Run => 3,
            SpeedMode::SI => 4,
            SpeedMode::Disp => 5,
            SpeedMode::Load => 6,
        }
    }

    /// The text on the panel at this position.
    pub open spec fn spec_label(self) -> Seq<char> {
        match self {
            SpeedMode::SS => "SS"@,
            SpeedMode::SMC => "SMC"@,
            SpeedMode::IntRun => "INT RUN"@,
            SpeedMode::Run => "RUN"@,
            SpeedMode::SI => "SI"@,
            SpeedMode::Disp => "DISP"@,
            SpeedMode::Load => "LOAD"@,
        }
    }

    /// The text on the panel at this position.
    pub fn label(&self) -> (r: &'static str)
        ensures
            r@ == self.spec_label(),
    {
        match self {
            SpeedMode::SS => "SS",
            SpeedMode::SMC => "SMC",
            SpeedMode::IntRun => "INT RUN",
            SpeedMode::Run => "RUN",
            SpeedMode::SI => "SI",
            SpeedMode::Disp => "DISP",
            SpeedMode::Load => "LOAD",
        }
    }

    /// All positions, from left to right.
    pub fn all() -> (r: [SpeedMode; 7])
        ensures
            r@ == Self::positions(),
    {
        let r = [
            SpeedMode::SS,
            SpeedMode::SMC,
            SpeedMode::IntRun,
            SpeedMode::Run,
            SpeedMode::SI,
            SpeedMode::Disp,
            SpeedMode::Load,
        ];
        r
    }

    /// The position at the place `index`, counted from 0, if there is one.
    pub fn from_index(index: usize) -> (r: Option<SpeedMode>)
        ensures
            index < 7 ==> r == Some(Self::positions()[index as int]),
            index >= 7 ==> r is None,
    {
        match index {
            0 => Some(SpeedMode::SS),
            1 => Some(SpeedMode::SMC),
            2 => Some(SpeedMode::IntRun),
            3 => Some(SpeedMode::Run),
            4 => Some(SpeedMode::SI),
            5 => Some(SpeedMode::Disp),
            6 => Some(SpeedMode::Load),
            _ => None,
        }
    }

    /// Every position stands at its own place among all.
    pub proof fn lemma_index(self)
        ensures
            0 <= self.index() < 7,
            Self::positions()[self.index()] == self,
    {
    }
}

// ----------------------------------------------------------------------
// The tabs of the front end
// ----------------------------------------------------------------------

/// The tabs, from left to right.
#[derive(Clone, Copy, PartialEq, Eq, Debug)]
pub enum Tab {
    Keypunch,
    Printer,
    Assembler,
    Console,
}

impl Default for Tab {
    fn default() -> (r: Self)
        ensures
            r == Tab::Assembler,
    {
        Tab::Assembler
    }
}

impl Tab {
    /// The text on this tab.
    pub open spec fn spec_label(self) -> Seq<char> {
        match self {
            Tab::Keypunch => "Keypunch"@,
            Tab::Printer => "Printer"@,
            Tab::Assembler => "Assembler Game"@,
            Tab::Console => "Console"@,
        }
    }

    /// The text on this tab.
    pub fn label(&self) -> (r: &'static str)
        ensures
            r@ == self.spec_label(),
    {
        match self {
            Tab::Keypunch => "Keypunch",
            Tab::Printer => "Printer",
            Tab::Assembler => "Assembler Game",
            Tab::Console => "Console",
        }
    }

    /// All tabs, from left to right.
    pub fn all() -> (r: [Tab; 4])
        ensures
            r@ == seq![Tab::Keypunch, Tab::Printer, Tab::Assembler, Tab::Console],
    {
        let r = [Tab::Keypunch, Tab::Printer, Tab::Assembler, Tab::Console];
        r
    }
}

// ----------------------------------------------------------------------
// The state of the console
// ----------------------------------------------------------------------

/// The registers that the console shows.
#[derive(Clone, Copy, PartialEq, Debug)]
pub struct Registers {
    /// Accumulator.
    pub acc: u16,
    /// Extension register.
    pub ext: u16,
    /// Instruction address register.
    pub iar: u16,
    /// Storage address register.
    pub sar: u16,
    /// Storage buffer register.
    pub sbr: u16,
    /// Arithmetic factor register.
    pub afr: u16,
}

impl Registers {
    /// The registers all at zero.
    pub open spec fn zero() -> Registers {
        Registers { acc: 0, ext: 0, iar: 0, sar: 0, sbr: 0, afr: 0 }
    }
}

impl Default for Registers {
    fn default() -> (r: Self)
        ensures
            r == Registers::zero(),
    {
        Registers { acc: 0, ext: 0, iar: 0, sar: 0, sbr: 0, afr: 0 }
    }
}

/// The indicators at the right of the console.
#[derive(Clone, Copy, PartialEq, Debug)]
pub struct ControlState {
    /// Operation code, five bits.
    pub op_code: u8,
    /// Whether the instruction is a long one.
    pub format: bool,
    /// The index register chosen, two bits.
    pub tag: u8,
    /// The cycle within the instruction, 0 to 7.
    pub cycle: u8,
    /// Whether the machine waits.
    pub wait: bool,
    /// Whether the address is indirect.
    pub indirect: bool,
    /// Carry flag.
    pub carry: bool,
    /// Overflow flag.
    pub overflow: bool,
}

impl ControlState {
    /// The indicators all off.
    pub open spec fn off() -> ControlState {
        ControlState {
            op_code: 0,
            format: false,
            tag: 0,
            cycle: 0,
            wait: false,
            indirect: false,
            carry: false,
            overflow: false,
        }
    }
}

impl Default for ControlState {
    fn default() -> (r: Self)
        ensures
            r == ControlState::off(),
    {
        ControlState {
            op_code: 0,
            format: false,
            tag: 0,
            cycle: 0,
            wait: false,
            indirect: false,
            carry: false,
            overflow: false,
        }
    }
}

/// The state of the console.
#[derive(Clone, PartialEq, Debug)]
pub struct ConsoleState {
    /// The sixteen entry switches.
    pub switches: u16,
    /// The registers shown.
    pub registers: Registers,
    /// The indicators shown.
    pub control: ControlState,
    /// The position of the speed knob.
    pub speed_mode: SpeedMode,
    /// Whether the power is on.
    pub power_on: bool,
    /// Whether the lamp test is on.
    pub lamp_test: bool,
    /// Whether the machine runs.
    pub running: bool,
}

/// What the operator, or the machine, does to the console.
#[derive(Clone, PartialEq, Debug)]
pub enum ConsoleAction {
    /// Set the entry switches.
    SetSwitches(u16),
    /// Turn the speed knob.
    SetSpeedMode(SpeedMode),
    /// Flip the power switch.
    TogglePower,
    /// Press or release the lamp test.
    SetLampTest(bool),
    /// Load the instruction address from the switches.
    Load,
    /// Deposit the switches into storage.
    Deposit,
    /// Move on by one word and deposit the switches.
    DepositNext,
    /// Examine storage at the instruction address.
    Examine,
    /// Move on by one word and examine.
    ExamineNext,
    /// Reset the machine.
    Reset,
    /// Start or stop the machine.
    ToggleRunning,
    /// Show new registers.
    UpdateRegisters(Registers),
}

impl ConsoleState {
    /// The console of a machine that was never switched on.
    pub open spec fn initial() -> ConsoleState {
        ConsoleState {
            switches: 0,
            registers: Registers::zero(),
            control: ControlState::off(),
            speed_mode: SpeedMode::Run,
            power_on: false,
            lamp_test: false,
            running: false,
        }
    }

    /// The registers after the instruction address moved on by one word,
    /// modulo 2^16.
    pub open spec fn next_word(registers: Registers) -> Registers {
        Registers { iar: ((registers.iar + 1) % 0x1_0000) as u16, ..registers }
    }

    /// The console after `action`. Without power the keys for loading,
    /// depositing, examining and starting do nothing; switching the power
    /// off stops the machine; a reset clears the registers and stops it.
    pub open spec fn after(self, action: ConsoleAction) -> ConsoleState {
        match action {
            ConsoleAction::SetSwitches(value) => ConsoleState { switches: value, ..self },
            ConsoleAction::SetSpeedMode(mode) => ConsoleState { speed_mode: mode, ..self },
            ConsoleAction::TogglePower => ConsoleState {
                power_on: !self.power_on,
                running: self.running && !self.power_on,
                ..self
            },
            ConsoleAction::SetLampTest(active) => ConsoleState { lamp_test: active, ..self },
            ConsoleAction::Load => if self.power_on {
                ConsoleState {
                    registers: Registers { iar: self.switches, ..self.registers },
                    ..self
                }
            } else {
                self
            },
            ConsoleAction::Deposit => if self.power_on {
                ConsoleState {
                    registers: Registers { sbr: self.switches, ..self.registers },
                    ..self
                }
            } else {
                self
            },
            ConsoleAction::DepositNext => if self.power_on {
                ConsoleState {
                    registers: Registers { sbr: self.switches, ..Self::next_word(self.registers) },
                    ..self
                }
            } else {
                self
            },
            ConsoleAction::Examine => if self.power_on {
                ConsoleState {
                    registers: Registers { sar: self.registers.iar, ..self.registers },
                    ..self
                }
            } else {
                self
            },
            ConsoleAction::ExamineNext => if self.power_on {
                let moved = Self::next_word(self.registers);
                ConsoleState { registers: Registers { sar: moved.iar, ..moved }, ..self }
            } else {
                self
            },
            ConsoleAction::Reset => ConsoleState {
                registers: Registers::zero(),
                running: false,
                ..self
            },
            ConsoleAction::ToggleRunning => if self.power_on {
                ConsoleState { running: !self.running, ..self }
            } else {
                self
            },
            ConsoleAction::UpdateRegisters(registers) => ConsoleState { registers, ..self },
        }
    }

    /// The console after `action`.
    pub fn reduce(&self, action: ConsoleAction) -> (r: ConsoleState)
        ensures
            r == self.after(action),
    {
        let mut new_state = ConsoleState {
            switches: self.switches,
            registers: self.registers,
            control: self.control,
            speed_mode: self.speed_mode,
            power_on: self.power_on,
            lamp_test: self.lamp_test,
            running: self.running,
        };
        match action {
            ConsoleAction::SetSwitches(value) => {
                new_state.switches = value;
            },
            ConsoleAction::SetSpeedMode(mode) => {
                new_state.speed_mode = mode;
            },
            ConsoleAction::TogglePower => {
                new_state.power_on = !new_state.power_on;
                if !new_state.power_on {
                    new_state.running = false;
                }
            },
            ConsoleAction::SetLampTest(active) => {
                new_state.lamp_test = active;
            },
            ConsoleAction::Load => {
                if new_state.power_on {
                    new_state.registers.iar = new_state.switches;
                }
            },
            ConsoleAction::Deposit => {
                if new_state.power_on {
                    new_state.registers.sbr = new_state.switches;
                }
            },
            ConsoleAction::DepositNext => {
                if new_state.power_on {
                    new_state.registers.iar = new_state.registers.iar.wrapping_add(1);
                    new_state.registers.sbr = new_state.switches;
                }
            },
            ConsoleAction::Examine => {
                if new_state.power_on {
                    new_state.registers.sar = new_state.registers.iar;
                }
            },
            ConsoleAction::ExamineNext => {
                if new_state.power_on {
                    new_state.registers.iar = new_state.registers.iar.wrapping_add(1);
                    new_state.registers.sar = new_state.registers.iar;
                }
            },
            ConsoleAction::Reset => {
                new_state.registers = Registers::default();
                new_state.running = false;
            },
            ConsoleAction::ToggleRunning => {
                if new_state.power_on {
                    new_state.running = !new_state.running;
                }
            },
            ConsoleAction::UpdateRegisters(regs) => {
                new_state.registers = regs;
            },
        }
        new_state
    }

    /// Only a console with power runs: where that holds before an action,
    /// it holds after it.
    pub proof fn lemma_running_needs_power(self, action: ConsoleAction)
        requires
            self.running ==> self.power_on,
        ensures
            self.after(action).running ==> self.after(action).power_on,
    {
    }
}

impl Default for ConsoleState {
    fn default() -> (r: Self)
        ensures
            r == ConsoleState::initial(),
    {
        ConsoleState {
            switches: 0,
            registers: Registers::default(),
            control: ControlState::default(),
            speed_mode: SpeedMode::Run,
            power_on: false,
            lamp_test: false,
            running: false,
        }
    }
}

} // verus!
