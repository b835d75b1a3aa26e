//! The scalar interpreter: a register file of 256 bytes, run over a program.

use crate::program::{Instruction, InstructionView, Program};
use crate::text::{decimal_digits, decimal_text};
use vstd::prelude::*;

verus! {

/// The number of registers.
pub const REGISTER_COUNT: usize = 256;

/// What the interpreter lets the outside see of one instruction.
#[derive(Debug, PartialEq, Eq)]
pub enum Event {
    /// `Print`: the value of the register, and the text that is printed, which
    /// is the value in decimal.
    Print { value: u8, text: String },
    /// A UI or update instruction, which this interpreter only reports.
    Log(Instruction),
    /// An opcode that the format does not know.
    Warning { opcode: u8 },
}

/// The model of an [`Event`].
pub enum EventView {
    Print { value: u8, text: Seq<char> },
    Log(InstructionView),
    Warning { opcode: u8 },
}

impl View for Event {
    type V = EventView;

    open spec fn view(&self) -> EventView {
        match *self {
            Event::Print { value, text } => EventView::Print { value, text: text@ },
            Event::Log(instruction) => EventView::Log(instruction@),
            Event::Warning { opcode } => EventView::Warning { opcode },
        }
    }
}

/// The models of a list of events, in order.
pub open spec fn event_views(events: Seq<Event>) -> Seq<EventView> {
    events.map_values(|e: Event| e@)
}

/// The register file before any instruction: every register holds zero.
pub open spec fn initial_registers() -> Seq<u8> {
    Seq::new(REGISTER_COUNT as nat, |i: int| 0u8)
}

/// The sum of two bytes modulo 256.
pub open spec fn wrapping_sum(a: u8, b: u8) -> u8 {
    ((a + b) % 256) as u8
}

/// The register file after one instruction.
pub open spec fn step_registers(registers: Seq<u8>, instruction: InstructionView) -> Seq<u8> {
    match instruction {
        InstructionView::Let { var_id, value } => registers.update(var_id as int, value),
        InstructionView::Assign { var_id, value } => registers.update(var_id as int, value),
        InstructionView::Add { dest_id, src1_id, src2_id } => registers.update(
            dest_id as int,
            wrapping_sum(registers[src1_id as int], registers[src2_id as int]),
        ),
        _ => registers,
    }
}

/// What one instruction lets the outside see, on the register file as it
/// stands before the instruction.
pub open spec fn step_event(registers: Seq<u8>, instruction: InstructionView) -> Option<
    EventView,
> {
    match instruction {
        InstructionView::Let { .. } => None,
        InstructionView::Assign { .. } => None,
        InstructionView::Add { .. } => None,
        InstructionView::Print { var_id } => Some(
            EventView::Print {
                value: registers[var_id as int],
                text: decimal_digits(registers[var_id as int]),
            },
        ),
        InstructionView::Unknown(opcode) => Some(EventView::Warning { opcode }),
        _ => Some(EventView::Log(instruction)),
    }
}

/// The register file after a run of instructions, from the initial one.
pub open spec fn registers_after(instructions: Seq<InstructionView>) -> Seq<u8>
    decreases instructions.len(),
{
    if instructions.len() == 0 {
        initial_registers()
    } else {
        step_registers(registers_after(instructions.drop_last()), instructions.last())
    }
}

/// The events of a run of instructions, from the initial register file.
pub open spec fn events_of(instructions: Seq<InstructionView>) -> Seq<EventView>
    decreases instructions.len(),
{
    if instructions.len() == 0 {
        Seq::empty()
    } else {
        let before = instructions.drop_last();
        match step_event(registers_after(before), instructions.last()) {
            Some(event) => events_of(before).push(event),
            None => events_of(before),
        }
    }
}

/// A scalar interpreter with a register file of its own.
pub struct ScalarInterpreter {
    registers: [u8; 256],
}

impl View for ScalarInterpreter {
    type V = Seq<u8>;

    closed spec fn view(&self) -> Seq<u8> {
        self.registers@
    }
}

impl ScalarInterpreter {
    /// An interpreter whose registers all hold zero.
    pub fn new() -> (interpreter: Self)
        ensures
            interpreter@ == initial_registers(),
    {
        let registers: [u8; 256] = [0u8; 256];
        ScalarInterpreter { registers }
    }

    /// The value that a register holds.
    pub fn register(&self, id: u8) -> (value: u8)
        ensures
            self@.len() == REGISTER_COUNT,
            value == self@[id as int],
    {
        self.registers[id as usize]
    }

    /// Executes one instruction, and returns what it lets the outside see.
    pub fn step(&mut self, instruction: &Instruction) -> (event: Option<Event>)
        ensures
            old(self)@.len() == REGISTER_COUNT,
            final(self)@ == step_registers(old(self)@, instruction@),
            match event {
                Some(e) => step_event(old(self)@, instruction@) == Some(e@),
                None => step_event(old(self)@, instruction@) is None,
            },
    {
        match instruction {
            Instruction::Let { var_id, value } => {
                self.registers.set(*var_id as usize, *value);
                None
            },
            Instruction::Assign { var_id, value } => {
                self.registers.set(*var_id as usize, *value);
                None
            },
            Instruction::Add { dest_id, src1_id, src2_id } => {
                let a: u8 = self.registers[*src1_id as usize];
                let b: u8 = self.registers[*src2_id as usize];
                self.registers.set(*dest_id as usize, a.wrapping_add(b));
                None
            },
            Instruction::Print { var_id } => {
                let value: u8 = self.registers[*var_id as usize];
                Some(Event::Print { value, text: decimal_text(value) })
            },
            Instruction::Unknown(opcode) => Some(Event::Warning { opcode: *opcode }),
            _ => Some(Event::Log(instruction.clone())),
        }
    }
}

/// Runs a program on a fresh register file and returns its events in order.
/// Every instruction is executed: none stops the run.
pub fn execute_program(program: &Program) -> (events: Vec<Event>)
    ensures
        event_views(events@) == events_of(program@.instructions),
{
    let mut interpreter = ScalarInterpreter::new();
    let mut events: Vec<Event> = Vec::new();
    let mut i: usize = 0;
    let ghost all = program@.instructions;
    while i < program.instructions.len()
        invariant
            i <= program.instructions.len(),
            all == program@.instructions,
            interpreter@ == registers_after(all.take(i as int)),
            event_views(events@) == events_of(all.take(i as int)),
        decreases program.instructions.len() - i,
    {
        assert(all.take(i + 1).drop_last() =~= all.take(i as int));
        match interpreter.step(&program.instructions[i]) {
            Some(event) => {
                events.push(event);
            },
            None => {},
        }
        i = i + 1;
    }
    assert(all.take(program.instructions.len() as int) =~= all);
    events
}

/// Adding two registers gives the same in either order of the sources.
pub proof fn add_is_commutative(registers: Seq<u8>, dest_id: u8, a: u8, b: u8)
    ensures
        step_registers(registers, InstructionView::Add { dest_id, src1_id: a, src2_id: b })
            == step_registers(registers, InstructionView::Add { dest_id, src1_id: b, src2_id: a }),
{
}

} // verus!
