//! The instructions of the machine and their encoding as the bytes that the interpreter
//! reads.

use crate::{emitted_chars, executed, high_register, is_instruction, low_register, run_from,
    takes_operand, Run, State};
use vstd::prelude::*;

verus! {

/// One of the four registers.
#[derive(Debug, Clone, Copy, PartialEq, Eq, Structural)]
pub enum Register {
    R0,
    R1,
    R2,
    R3,
}

impl Register {
    /// The number of the register, from 0 to 3.
    pub open spec fn index(self) -> u8 {
        match self {
            Register::R0 => 0,
            Register::R1 => 1,
            Register::R2 => 2,
            Register::R3 => 3,
        }
    }
}

impl From<Register> for u8 {
    fn from(value: Register) -> (r: Self)
        ensures
            r < 4,
    {
        match value {
            Register::R0 => 0,
            Register::R1 => 1,
            Register::R2 => 2,
            Register::R3 => 3,
        }
    }
}

impl vstd::std_specs::convert::FromSpecImpl<Register> for u8 {
    open spec fn obeys_from_spec() -> bool {
        true
    }

    open spec fn from_spec(value: Register) -> Self {
        value.index()
    }
}

/// The instructions of the machine. Where an instruction names two registers, the first
/// receives the result.
#[derive(Debug, Clone, Copy, PartialEq, Eq, Structural)]
pub enum Instruction {
    /// Loads the given value into the register.
    LoadConstant(Register, u8),
    /// Loads the byte at the given memory address into the register.
    LoadMemory(Register, u8),
    /// Stores the value of the register at the given memory address.
    StoreMemory(Register, u8),
    /// Inverts the value of the register.
    Not(Register),
    /// Gives the left register the value of the right register.
    Move(Register, Register),
    /// Left register becomes left nand right.
    Nand(Register, Register),
    /// Left register becomes left and right.
    And(Register, Register),
    /// Left register becomes left nor right.
    Nor(Register, Register),
    /// Left register becomes left or right.
    Or(Register, Register),
    /// Left register becomes left xnor right.
    Xnor(Register, Register),
    /// Left register becomes left xor right.
    Xor(Register, Register),
    /// Left register becomes left plus right; the overflow flag takes the carry.
    Add(Register, Register),
    /// Left register becomes left plus right plus the overflow flag; the flag takes the
    /// carry.
    AddOverflow(Register, Register),
    /// Left register becomes left minus right; the overflow flag takes the carry.
    Sub(Register, Register),
    /// Left register becomes left minus right minus the overflow flag; the flag takes
    /// the carry.
    SubOverflow(Register, Register),
}

/// The opcode of an instruction on two registers: the first opcode of its kind, with the
/// receiving register in bits 2 and 3 and the other register in bits 0 and 1.
pub open spec fn packed(first: u8, target: Register, source: Register) -> u8 {
    (first + 4 * target.index() + source.index()) as u8
}

proof fn lemma_packed(first: u8, target: u8, source: u8)
    by (bit_vector)
    requires
        first % 16 == 0,
        target < 4,
        source < 4,
    ensures
        first | (target << 2) | source == first + 4 * target + source,
        first | source == first + source,
        (first | (target << 2) | source) / 16 == first / 16,
{
}

proof fn lemma_packed_fields(first: u8, target: Register, source: Register)
    requires
        first % 16 == 0,
        16 <= first <= 176,
    ensures
        first <= packed(first, target, source) < first + 16,
        low_register(packed(first, target, source)) == source.index(),
        high_register(packed(first, target, source)) == target.index(),
{
    let t = target.index();
    let s = source.index();
    assert(first | (t << 2) | s == first + 4 * t + s && (first | (t << 2) | s) % 4 == s && ((first
        | (t << 2) | s) / 4) % 4 == t) by (bit_vector)
        requires
            first % 16 == 0,
            t < 4,
            s < 4,
    ;
}

impl Instruction {
    /// The opcode byte of the instruction.
    pub open spec fn opcode(self) -> u8 {
        match self {
            Instruction::LoadConstant(register, _) => register.index(),
            Instruction::LoadMemory(register, _) => (4 + register.index()) as u8,
            Instruction::StoreMemory(register, _) => (8 + register.index()) as u8,
            Instruction::Not(register) => (12 + register.index()) as u8,
            Instruction::Move(target, source) => packed(16, target, source),
            Instruction::Nand(target, source) => packed(32, target, source),
            Instruction::And(target, source) => packed(48, target, source),
            Instruction::Nor(target, source) => packed(64, target, source),
            Instruction::Or(target, source) => packed(80, target, source),
            Instruction::Xnor(target, source) => packed(96, target, source),
            Instruction::Xor(target, source) => packed(112, target, source),
            Instruction::Add(target, source) => packed(128, target, source),
            Instruction::AddOverflow(target, source) => packed(144, target, source),
            Instruction::Sub(target, source) => packed(160, target, source),
            Instruction::SubOverflow(target, source) => packed(176, target, source),
        }
    }

    /// The byte that follows the opcode: the value or the address, for the three
    /// instructions that carry one.
    pub open spec fn operand(self) -> Option<u8> {
        match self {
            Instruction::LoadConstant(_, value) => Some(value),
            Instruction::LoadMemory(_, address) => Some(address),
            Instruction::StoreMemory(_, address) => Some(address),
            _ => None,
        }
    }

    /// The bytes that stand for the instruction: its opcode, and its operand if it has
    /// one.
    pub open spec fn encoding(self) -> Seq<u8> {
        match self.operand() {
            Some(operand) => seq![self.opcode(), operand],
            None => seq![self.opcode()],
        }
    }

    /// The encodings of the first `n` instructions, one after the other.
    pub open spec fn encoded(instructions: Seq<Instruction>, n: nat) -> Seq<u8>
        decreases n,
    {
        if n == 0 {
            Seq::empty()
        } else {
            Instruction::encoded(instructions, (n - 1) as nat) + instructions[n - 1].encoding()
        }
    }

    /// The registers that an instruction names: the one that receives the result, and
    /// the one that is only read (the same one where the instruction names a single
    /// register).
    pub open spec fn registers(self) -> (Register, Register) {
        match self {
            Instruction::LoadConstant(register, _) => (register, register),
            Instruction::LoadMemory(register, _) => (register, register),
            Instruction::StoreMemory(register, _) => (register, register),
            Instruction::Not(register) => (register, register),
            Instruction::Move(target, source) => (target, source),
            Instruction::Nand(target, source) => (target, source),
            Instruction::And(target, source) => (target, source),
            Instruction::Nor(target, source) => (target, source),
            Instruction::Or(target, source) => (target, source),
            Instruction::Xnor(target, source) => (target, source),
            Instruction::Xor(target, source) => (target, source),
            Instruction::Add(target, source) => (target, source),
            Instruction::AddOverflow(target, source) => (target, source),
            Instruction::Sub(target, source) => (target, source),
            Instruction::SubOverflow(target, source) => (target, source),
        }
    }

    /// The first opcode of the instruction's kind.
    pub open spec fn first_opcode(self) -> u8 {
        match self {
            Instruction::LoadConstant(_, _) => 0,
            Instruction::LoadMemory(_, _) => 4,
            Instruction::StoreMemory(_, _) => 8,
            Instruction::Not(_) => 12,
            Instruction::Move(_, _) => 16,
            Instruction::Nand(_, _) => 32,
            Instruction::And(_, _) => 48,
            Instruction::Nor(_, _) => 64,
            Instruction::Or(_, _) => 80,
            Instruction::Xnor(_, _) => 96,
            Instruction::Xor(_, _) => 112,
            Instruction::Add(_, _) => 128,
            Instruction::AddOverflow(_, _) => 144,
            Instruction::Sub(_, _) => 160,
            Instruction::SubOverflow(_, _) => 176,
        }
    }

    /// The interpreter reads an encoded opcode as it was written: the opcode is one
    /// that it knows and lies in the range of the instruction's kind, it names the same
    /// registers, and an operand follows exactly where the interpreter expects one.
    pub proof fn lemma_opcode_decodes(self)
        ensures
            is_instruction(self.opcode()),
            takes_operand(self.opcode()) == self.operand().is_some(),
            self.first_opcode() <= self.opcode(),
            self.opcode() < self.first_opcode() + (if self.first_opcode() < 16 { 4int } else { 16 }),
            low_register(self.opcode()) == self.registers().1.index(),
            self.first_opcode() >= 16 ==> high_register(self.opcode()) == self.registers().0.index(),
    {
        let (target, source) = self.registers();
        if self.first_opcode() >= 16 {
            lemma_packed_fields(self.first_opcode(), target, source);
        }
    }

    /// The interpreter runs the encoding of an instruction as that one instruction.
    pub proof fn lemma_encoding_runs(self, s: State)
        ensures
            run_from(s, self.encoding(), 0) == (Run {
                state: executed(
                    s,
                    self.opcode(),
                    match self.operand() {
                        Some(operand) => operand,
                        None => 0,
                    },
                ),
                output: match self.operand() {
                    Some(operand) => emitted_chars(s, self.opcode(), operand),
                    None => Seq::empty(),
                },
                error: None,
            }),
    {
        self.lemma_opcode_decodes();
        let program = self.encoding();
        let opcode = self.opcode();
        match self.operand() {
            Some(operand) => {
                let after = executed(s, opcode, operand);
                assert(run_from(after, program, 2) == Run {
                    state: after,
                    output: Seq::empty(),
                    error: None,
                });
                assert(program[0] == opcode && program[1] == operand);
                assert(run_from(s, program, 0).output =~= emitted_chars(s, opcode, operand));
            },
            None => {
                let after = executed(s, opcode, 0);
                assert(run_from(after, program, 1) == Run {
                    state: after,
                    output: Seq::empty(),
                    error: None,
                });
                assert(program[0] == opcode);
            },
        }
    }

    /// Packs the opcode of an instruction on two registers.
    fn pack(first: u8, target: Register, source: Register) -> (r: u8)
        requires
            first % 16 == 0,
        ensures
            r == packed(first, target, source),
    {
        let target = u8::from(target);
        let source = u8::from(source);
        proof {
            lemma_packed(first, target, source);
        }
        first | (target << 2) | source
    }

    /// Packs the opcode of an instruction on one register.
    fn tag(first: u8, register: Register) -> (r: u8)
        requires
            first == 0 || first == 4 || first == 8 || first == 12,
        ensures
            r == first + register.index(),
    {
        let register = u8::from(register);
        assert(first | register == first + register) by (bit_vector)
            requires
                first == 0 || first == 4 || first == 8 || first == 12,
                register < 4,
        ;
        first | register
    }

    /// Computes the opcode byte of the instruction.
    fn opcode_byte(&self) -> (r: u8)
        ensures
            r == self.opcode(),
    {
        match *self {
            Instruction::LoadConstant(register, _) => Self::tag(0, register),
            Instruction::LoadMemory(register, _) => Self::tag(4, register),
            Instruction::StoreMemory(register, _) => Self::tag(8, register),
            Instruction::Not(register) => Self::tag(12, register),
            Instruction::Move(target, source) => Self::pack(16, target, source),
            Instruction::Nand(target, source) => Self::pack(32, target, source),
            Instruction::And(target, source) => Self::pack(48, target, source),
            Instruction::Nor(target, source) => Self::pack(64, target, source),
            Instruction::Or(target, source) => Self::pack(80, target, source),
            Instruction::Xnor(target, source) => Self::pack(96, target, source),
            Instruction::Xor(target, source) => Self::pack(112, target, source),
            Instruction::Add(target, source) => Self::pack(128, target, source),
            Instruction::AddOverflow(target, source) => Self::pack(144, target, source),
            Instruction::Sub(target, source) => Self::pack(160, target, source),
            Instruction::SubOverflow(target, source) => Self::pack(176, target, source),
        }
    }

    /// Picks the operand byte of the instruction, if it has one.
    fn operand_byte(&self) -> (r: Option<u8>)
        ensures
            r == self.operand(),
    {
        match *self {
            Instruction::LoadConstant(_, value) => Some(value),
            Instruction::LoadMemory(_, address) => Some(address),
            Instruction::StoreMemory(_, address) => Some(address),
            _ => None,
        }
    }

    /// Converts a list of instructions to the bytes of a program.
    pub fn to_bytes(instructions: Vec<Instruction>) -> (r: Vec<u8>)
        ensures
            r@ == Instruction::encoded(instructions@, instructions@.len()),
    {
        let mut result: Vec<u8> = Vec::new();
        let mut i: usize = 0;
        while i < instructions.len()
            invariant
                i <= instructions@.len(),
                result@ == Instruction::encoded(instructions@, i as nat),
            decreases instructions@.len() - i,
        {
            let ghost before = result@;
            let instruction = &instructions[i];
            result.push(instruction.opcode_byte());
            match instruction.operand_byte() {
                Some(operand) => {
                    result.push(operand);
                },
                None => {},
            }
            assert(result@ =~= before + instruction.encoding());
            i += 1;
        }
        result
    }
}

} // verus!
