//! A minimal computer modelled from a single NAND gate upward: bits, bytes, the selection
//! fabric, storage addressed through that fabric, and the interpreter that runs a
//! byte-coded program on them.

use crate::bit::{lemma_bits_value_2, select_index, Bit};
use crate::byte::Byte;
use crate::mux::byte::{Ram, Registers};
use vstd::prelude::*;

pub mod assembler;
pub mod bit;
pub mod byte;
pub mod circuit;
pub mod mux;

verus! {

/// Why a run ended before the end of its program.
#[derive(Debug, Clone, Copy, PartialEq, Eq, Structural)]
pub enum AluError {
    /// The program ended where the operand byte of an instruction was due.
    UnexpectedEnd,
    /// The opcode byte, which it holds, names no instruction.
    InvalidInstruction(u8),
}

/// What a machine holds, as numbers: four registers, 256 memory cells, the overflow flag.
pub struct State {
    /// The numbers in the four registers.
    pub registers: Seq<u8>,
    /// The numbers in the 256 memory cells, by address.
    pub memory: Seq<u8>,
    /// Whether the overflow flag is high.
    pub overflow: bool,
}

/// The machine that a program runs on.
pub struct Machine {
    /// The register file.
    pub registers: Registers,
    /// The memory.
    pub memory: Ram,
    /// The carry of the latest arithmetic instruction.
    pub overflow: Bit,
}

impl View for Machine {
    type V = State;

    open spec fn view(&self) -> State {
        State { registers: self.registers@, memory: self.memory@, overflow: self.overflow@ }
    }
}

/// The state in which every run starts: all registers and cells zero, the flag low.
pub open spec fn initial_state() -> State {
    State {
        registers: Seq::new(4, |i: int| 0u8),
        memory: Seq::new(256, |i: int| 0u8),
        overflow: false,
    }
}

/// The register that the two lowest bits of an opcode name.
pub open spec fn low_register(opcode: u8) -> int {
    opcode as int % 4
}

/// The register that bits 2 and 3 of an opcode name.
pub open spec fn high_register(opcode: u8) -> int {
    (opcode as int / 4) % 4
}

/// Opcodes from 192 on name no instruction.
pub open spec fn is_instruction(opcode: u8) -> bool {
    opcode < 192
}

/// The instructions that load a constant, load from memory and store to memory are
/// followed by an operand byte.
pub open spec fn takes_operand(opcode: u8) -> bool {
    opcode < 12
}

/// The number that the high register holds after an instruction on two registers, given
/// what the high register (`target`) and the low register (`source`) held before.
pub open spec fn computed(opcode: u8, target: u8, source: u8, overflow: bool) -> u8 {
    let carry: int = if overflow { 1 } else { 0 };
    if opcode < 32 {
        source
    } else if opcode < 48 {
        !(target & source)
    } else if opcode < 64 {
        target & source
    } else if opcode < 80 {
        !(target | source)
    } else if opcode < 96 {
        target | source
    } else if opcode < 112 {
        !(target ^ source)
    } else if opcode < 128 {
        target ^ source
    } else if opcode < 144 {
        ((target + source) % 256) as u8
    } else if opcode < 160 {
        ((target + source + carry) % 256) as u8
    } else if opcode < 176 {
        ((target - source) % 256) as u8
    } else {
        ((target - source - carry) % 256) as u8
    }
}

/// The overflow flag after an instruction on two registers: the logic instructions leave
/// it alone, an addition raises it when the sum passes 255, a plain subtraction raises
/// it when nothing was borrowed, and a subtraction with borrow always raises it.
pub open spec fn flagged(opcode: u8, target: u8, source: u8, overflow: bool) -> bool {
    let carry: int = if overflow { 1 } else { 0 };
    if opcode < 128 {
        overflow
    } else if opcode < 144 {
        target + source >= 256
    } else if opcode < 160 {
        target + source + carry >= 256
    } else if opcode < 176 {
        target >= source
    } else {
        true
    }
}

/// The state after one instruction. `operand` counts only where `takes_operand(opcode)`.
pub open spec fn executed(s: State, opcode: u8, operand: u8) -> State {
    let low = low_register(opcode);
    let high = high_register(opcode);
    if opcode < 4 {
        State { registers: s.registers.update(low, operand), ..s }
    } else if opcode < 8 {
        State { registers: s.registers.update(low, s.memory[operand as int]), ..s }
    } else if opcode < 12 {
        State { memory: s.memory.update(operand as int, s.registers[low]), ..s }
    } else if opcode < 16 {
        State { registers: s.registers.update(low, !s.registers[low]), ..s }
    } else if opcode < 192 {
        State {
            registers: s.registers.update(
                high,
                computed(opcode, s.registers[high], s.registers[low], s.overflow),
            ),
            overflow: flagged(opcode, s.registers[high], s.registers[low], s.overflow),
            ..s
        }
    } else {
        s
    }
}

/// What one instruction sends to the output: a store to address 255 sends the stored
/// number, and nothing else sends anything.
pub open spec fn emitted(s: State, opcode: u8, operand: u8) -> Option<u8> {
    if 8 <= opcode < 12 && operand == 255 {
        Some(s.registers[low_register(opcode)])
    } else {
        None
    }
}

/// The characters that one instruction sends to the output.
pub open spec fn emitted_chars(s: State, opcode: u8, operand: u8) -> Seq<char> {
    match emitted(s, opcode, operand) {
        Some(value) => seq![value as char],
        None => Seq::empty(),
    }
}

/// How a run ends: the final state, all that was sent to the output, and the error that
/// stopped it, if one did.
pub struct Run {
    /// The state in which the run ended.
    pub state: State,
    /// The characters sent to the output, in order.
    pub output: Seq<char>,
    /// The error that ended the run, or `None` if it reached the end of the program.
    pub error: Option<AluError>,
}

/// The run of `program` from position `at` on, started in state `s`.
pub open spec fn run_from(s: State, program: Seq<u8>, at: int) -> Run
    decreases program.len() - at,
{
    if at < 0 || at >= program.len() {
        Run { state: s, output: Seq::empty(), error: None }
    } else {
        let opcode = program[at];
        if !is_instruction(opcode) {
            Run { state: s, output: Seq::empty(), error: Some(AluError::InvalidInstruction(opcode)) }
        } else if !takes_operand(opcode) {
            run_from(executed(s, opcode, 0), program, at + 1)
        } else if at + 1 >= program.len() {
            Run { state: s, output: Seq::empty(), error: Some(AluError::UnexpectedEnd) }
        } else {
            let operand = program[at + 1];
            let rest = run_from(executed(s, opcode, operand), program, at + 2);
            Run { output: emitted_chars(s, opcode, operand) + rest.output, ..rest }
        }
    }
}

/// The result that a run hands back.
pub open spec fn outcome(run: Run) -> Result<(), AluError> {
    match run.error {
        Some(error) => Err(error),
        None => Ok(()),
    }
}

/// A program whose first byte names no instruction ends at once with that byte as the
/// error, and sends nothing to the output.
pub proof fn lemma_invalid_first_opcode(s: State, program: Seq<u8>)
    requires
        program.len() > 0,
        !is_instruction(program[0]),
    ensures
        run_from(s, program, 0) == (Run {
            state: s,
            output: Seq::empty(),
            error: Some(AluError::InvalidInstruction(program[0])),
        }),
{
}

/// A program that ends right after an opcode that takes an operand ends with the
/// error of a truncated program, and sends nothing to the output.
pub proof fn lemma_missing_operand(s: State, program: Seq<u8>)
    requires
        program.len() == 1,
        takes_operand(program[0]),
    ensures
        run_from(s, program, 0) == (Run {
            state: s,
            output: Seq::empty(),
            error: Some(AluError::UnexpectedEnd),
        }),
{
}

/// A store to address 255 sends the stored register to the output as the character
/// with that code; no other instruction sends anything.
pub proof fn lemma_output_port(s: State, opcode: u8, operand: u8)
    ensures
        8 <= opcode < 12 && operand == 255 ==> emitted_chars(s, opcode, operand) == seq![
            s.registers[low_register(opcode)] as char,
        ],
        !(8 <= opcode < 12 && operand == 255) ==> emitted_chars(s, opcode, operand)
            == Seq::<char>::empty(),
{
}

proof fn lemma_selector_bits(opcode: u8)
    by (bit_vector)
    ensures
        (if opcode & 1 == 1 { 1u8 } else { 0u8 }) + (if (opcode >> 1) & 1 == 1 { 2u8 } else { 0u8 })
            == opcode % 4,
        (if (opcode >> 2) & 1 == 1 { 1u8 } else { 0u8 }) + (if (opcode >> 3) & 1 == 1 {
            2u8
        } else {
            0u8
        }) == (opcode / 4) % 4,
{
}

/// Splits an opcode into its two register selectors: bits 0 and 1, and bits 2 and 3.
fn selectors(opcode: u8) -> (r: ([Bit; 2], [Bit; 2]))
    ensures
        select_index(r.0@) == low_register(opcode),
        select_index(r.1@) == high_register(opcode),
{
    let low = [Bit::from(opcode & 1 == 1), Bit::from((opcode >> 1) & 1 == 1)];
    let high = [Bit::from((opcode >> 2) & 1 == 1), Bit::from((opcode >> 3) & 1 == 1)];
    proof {
        lemma_selector_bits(opcode);
        lemma_bits_value_2(low@);
        lemma_bits_value_2(high@);
    }
    (low, high)
}

impl Machine {
    /// A machine with all registers and memory cells zero and the overflow flag low.
    pub fn new() -> (r: Self)
        ensures
            r@ == initial_state(),
    {
        Machine { registers: Registers::new(), memory: Ram::new(), overflow: Bit::Low }
    }

    /// Executes one instruction and returns what it sends to the output, if anything.
    /// `operand` is the byte after the opcode, for the instructions that take one. An
    /// opcode that names no instruction is refused and leaves the machine as it was.
    pub fn execute(&mut self, opcode: u8, operand: u8) -> (r: Result<Option<u8>, AluError>)
        ensures
            final(self)@ == executed(old(self)@, opcode, operand),
            r == if is_instruction(opcode) {
                Ok::<Option<u8>, AluError>(emitted(old(self)@, opcode, operand))
            } else {
                Err(AluError::InvalidInstruction(opcode))
            },
    {
        let (reg_low, reg_high) = selectors(opcode);
        if opcode >= 192 {
            Err(AluError::InvalidInstruction(opcode))
        } else if opcode < 4 {
            self.registers.store(reg_low, Byte::from(operand));
            Ok(None)
        } else if opcode < 8 {
            let value = self.memory.load(Byte::from(operand));
            self.registers.store(reg_low, value);
            Ok(None)
        } else if opcode < 12 {
            let value = self.registers.load(reg_low);
            self.memory.store(Byte::from(operand), value);
            if operand == 255 {
                Ok(Some(u8::from(value)))
            } else {
                Ok(None)
            }
        } else if opcode < 16 {
            let value = self.registers.load(reg_low).not();
            self.registers.store(reg_low, value);
            Ok(None)
        } else {
            let target = self.registers.load(reg_high);
            let source = self.registers.load(reg_low);
            if opcode < 32 {
                self.registers.store(reg_high, source);
            } else if opcode < 48 {
                self.registers.store(reg_high, target.nand(&source));
            } else if opcode < 64 {
                self.registers.store(reg_high, target.and(&source));
            } else if opcode < 80 {
                self.registers.store(reg_high, target.nor(&source));
            } else if opcode < 96 {
                self.registers.store(reg_high, target.or(&source));
            } else if opcode < 112 {
                self.registers.store(reg_high, target.xnor(&source));
            } else if opcode < 128 {
                self.registers.store(reg_high, target.xor(&source));
            } else {
                let (result, carry) = if opcode < 144 {
                    target + source
                } else if opcode < 160 {
                    target.add_with_carry(source, self.overflow)
                } else if opcode < 176 {
                    target - source
                } else {
                    target.sub_with_carry(source, self.overflow)
                };
                self.registers.store(reg_high, result);
                self.overflow = carry;
            }
            Ok(None)
        }
    }

    /// Runs `program` from its first byte to its end, or to the first instruction that
    /// cannot be decoded, and appends to `out` the characters that it sends to the
    /// output. What was done and sent before an error stays done and sent.
    pub fn run(&mut self, program: &[u8], out: &mut Vec<char>) -> (r: Result<(), AluError>)
        ensures
            final(self)@ == run_from(old(self)@, program@, 0).state,
            final(out)@ == old(out)@ + run_from(old(self)@, program@, 0).output,
            r == outcome(run_from(old(self)@, program@, 0)),
    {
        let ghost whole = run_from(self@, program@, 0);
        let ghost mut sent: Seq<char> = Seq::empty();
        let mut at: usize = 0;
        assert(out@ =~= old(out)@ + sent);
        assert(whole.output =~= sent + whole.output);
        while at < program.len()
            invariant
                at <= program@.len(),
                whole == run_from(old(self)@, program@, 0),
                out@ == old(out)@ + sent,
                whole.state == run_from(self@, program@, at as int).state,
                whole.output == sent + run_from(self@, program@, at as int).output,
                whole.error == run_from(self@, program@, at as int).error,
            decreases program@.len() - at,
        {
            let opcode = program[at];
            let ghost before = self@;
            if opcode >= 12 {
                match self.execute(opcode, 0) {
                    Ok(_) => {},
                    Err(error) => {
                        assert(whole.output =~= sent);
                        return Err(error);
                    },
                }
                at += 1;
            } else {
                if at + 1 >= program.len() {
                    assert(whole.output =~= sent);
                    return Err(AluError::UnexpectedEnd);
                }
                let operand = program[at + 1];
                let ghost rest = run_from(executed(before, opcode, operand), program@, at + 2);
                match self.execute(opcode, operand) {
                    Ok(Some(value)) => {
                        out.push(value as char);
                        proof {
                            assert(whole.output =~= (sent + seq![value as char]) + rest.output);
                            sent = sent + seq![value as char];
                        }
                    },
                    Ok(None) => {
                        assert(whole.output =~= sent + rest.output);
                    },
                    Err(error) => {
                        return Err(error);
                    },
                }
                at += 2;
            }
        }
        assert(whole.output =~= sent);
        Ok(())
    }
}

/// Runs `program` on a fresh machine and appends to `out` what it sends to the output.
/// Returns `Ok` when the program ran to its end, and otherwise the error that stopped
/// it; what was sent before the error is in `out` all the same.
pub fn alu(program: &[u8], out: &mut Vec<char>) -> (r: Result<(), AluError>)
    ensures
        final(out)@ == old(out)@ + run_from(initial_state(), program@, 0).output,
        r == outcome(run_from(initial_state(), program@, 0)),
{
    let mut machine = Machine::new();
    machine.run(program, out)
}

} // verus!
