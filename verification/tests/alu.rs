use computer::assembler::{Instruction, Register};
use computer::bit::Bit;
use computer::{alu, AluError, Machine};
use std::array;

#[test]
fn hello_world() {
    let mut output: Vec<char> = Vec::new();
    let expected = b"Hello, world!";
    let code: [u8; 52] = array::from_fn(|i| match i % 4 {
        0 => 0,
        1 => expected[i / 4],
        2 => 8,
        3 => 255,
        _ => unreachable!(),
    });
    alu(&code, &mut output).expect("the program is well formed");
    let text: String = output.iter().collect();
    assert_eq!(text.as_bytes(), expected);
}

#[test]
fn two_stores_to_the_port_print_hi() {
    let mut output: Vec<char> = Vec::new();
    let result = alu(&[0, b'H', 8, 255, 0, b'i', 8, 255], &mut output);
    assert_eq!(result, Ok(()));
    assert_eq!(output, vec!['H', 'i']);
}

#[test]
fn invalid_opcode_stops_the_run_without_output() {
    let mut output: Vec<char> = Vec::new();
    assert_eq!(alu(&[200], &mut output), Err(AluError::InvalidInstruction(200)));
    assert!(output.is_empty());
    assert_eq!(alu(&[192], &mut output), Err(AluError::InvalidInstruction(192)));
    assert_eq!(alu(&[255, 0, 65, 8, 255], &mut output), Err(AluError::InvalidInstruction(255)));
    assert!(output.is_empty());
}

#[test]
fn missing_operand_is_a_truncated_program() {
    let mut output: Vec<char> = Vec::new();
    assert_eq!(alu(&[0], &mut output), Err(AluError::UnexpectedEnd));
    assert_eq!(alu(&[5], &mut output), Err(AluError::UnexpectedEnd));
    assert_eq!(alu(&[0, 65, 8], &mut output), Err(AluError::UnexpectedEnd));
    assert!(output.is_empty());
}

#[test]
fn output_before_an_error_stays() {
    let mut output: Vec<char> = vec!['>'];
    assert_eq!(
        alu(&[1, b'o', 9, 255, 191, 230, 1, b'x', 9, 255], &mut output),
        Err(AluError::InvalidInstruction(230))
    );
    assert_eq!(output, vec!['>', 'o']);
}

#[test]
fn empty_program_ends_at_once() {
    let mut output: Vec<char> = Vec::new();
    assert_eq!(alu(&[], &mut output), Ok(()));
    assert!(output.is_empty());
}

#[test]
fn stores_elsewhere_print_nothing() {
    let mut output: Vec<char> = Vec::new();
    assert_eq!(alu(&[0, b'H', 8, 254, 8, 0], &mut output), Ok(()));
    assert!(output.is_empty());
}

#[test]
fn port_prints_the_character_with_the_byte_as_its_code() {
    let mut output: Vec<char> = Vec::new();
    assert_eq!(alu(&[2, 233, 10, 255], &mut output), Ok(()));
    assert_eq!(output, vec!['\u{e9}']);
}

fn register(machine: &Machine, index: usize) -> u8 {
    u8::from(machine.registers.load(array::from_fn(|k| Bit::from((index >> k) & 1 == 1))))
}

fn machine_with(r0: u8, r1: u8) -> Machine {
    let mut machine = Machine::new();
    assert_eq!(machine.execute(0, r0), Ok(None));
    assert_eq!(machine.execute(1, r1), Ok(None));
    machine
}

#[test]
fn machine_starts_zeroed() {
    let machine = Machine::new();
    for index in 0..4 {
        assert_eq!(register(&machine, index), 0);
    }
    assert_eq!(machine.overflow, Bit::Low);
}

#[test]
fn load_and_store_move_bytes_between_registers_and_memory() {
    let mut machine = machine_with(0xab, 0);
    assert_eq!(machine.execute(8, 17), Ok(None));
    assert_eq!(machine.execute(4 | 3, 17), Ok(None));
    assert_eq!(register(&machine, 3), 0xab);
    assert_eq!(machine.execute(4 | 2, 18), Ok(None));
    assert_eq!(register(&machine, 2), 0);
    assert_eq!(machine.execute(8, 255), Ok(Some(0xab)));
}

#[test]
fn logic_instructions_write_the_high_register() {
    let (a, b) = (0b1100_1010u8, 0b1010_0110u8);
    // The opcode holds the receiving register in bits 2 and 3 (here 0) and the other in
    // bits 0 and 1 (here 1).
    let cases: [(u8, u8); 7] = [
        (16, b),
        (32, !(a & b)),
        (48, a & b),
        (64, !(a | b)),
        (80, a | b),
        (96, !(a ^ b)),
        (112, a ^ b),
    ];
    for (first, expected) in cases {
        let mut machine = machine_with(a, b);
        assert_eq!(machine.execute(first | 1, 0), Ok(None));
        assert_eq!(register(&machine, 0), expected);
        assert_eq!(register(&machine, 1), b);
        assert_eq!(machine.overflow, Bit::Low);
    }
    let mut machine = machine_with(a, b);
    assert_eq!(machine.execute(12 | 1, 0), Ok(None));
    assert_eq!(register(&machine, 1), !b);
    assert_eq!(register(&machine, 0), a);
    let mut machine = machine_with(a, b);
    assert_eq!(machine.execute(16 | (2 << 2) | 1, 0), Ok(None));
    assert_eq!(register(&machine, 2), b);
}

#[test]
fn arithmetic_instructions_set_the_overflow_flag() {
    let mut machine = machine_with(200, 100);
    assert_eq!(machine.execute(128 | 1, 0), Ok(None));
    assert_eq!(register(&machine, 0), 44);
    assert_eq!(machine.overflow, Bit::High);
    assert_eq!(machine.execute(144 | 1, 0), Ok(None));
    assert_eq!(register(&machine, 0), 145);
    assert_eq!(machine.overflow, Bit::Low);
    assert_eq!(machine.execute(144 | 1, 0), Ok(None));
    assert_eq!(register(&machine, 0), 245);
    assert_eq!(machine.overflow, Bit::Low);

    let mut machine = machine_with(5, 6);
    assert_eq!(machine.execute(160 | 1, 0), Ok(None));
    assert_eq!(register(&machine, 0), 255);
    assert_eq!(machine.overflow, Bit::Low);
    assert_eq!(machine.execute(176 | 1, 0), Ok(None));
    assert_eq!(register(&machine, 0), 249);
    assert_eq!(machine.overflow, Bit::High);
    assert_eq!(machine.execute(176 | 1, 0), Ok(None));
    assert_eq!(register(&machine, 0), 242);
    assert_eq!(machine.overflow, Bit::High);
    assert_eq!(machine.execute(160 | 1, 0), Ok(None));
    assert_eq!(register(&machine, 0), 236);
    assert_eq!(machine.overflow, Bit::High);
}

#[test]
fn run_continues_on_the_machine_it_is_given() {
    let mut machine = machine_with(b'a', 1);
    let mut output: Vec<char> = Vec::new();
    assert_eq!(machine.run(&[128 | 1, 8, 255, 128 | 1, 8, 255], &mut output), Ok(()));
    assert_eq!(output, vec!['b', 'c']);
    assert_eq!(register(&machine, 0), b'c');
}

#[test]
fn to_bytes_packs_both_registers_into_the_opcode() {
    let bytes = Instruction::to_bytes(vec![
        Instruction::LoadConstant(Register::R0, 72),
        Instruction::LoadMemory(Register::R1, 9),
        Instruction::StoreMemory(Register::R2, 255),
        Instruction::Not(Register::R3),
        Instruction::Move(Register::R1, Register::R2),
        Instruction::Nand(Register::R0, Register::R1),
        Instruction::And(Register::R3, Register::R3),
        Instruction::Nor(Register::R2, Register::R0),
        Instruction::Or(Register::R1, Register::R0),
        Instruction::Xnor(Register::R0, Register::R3),
        Instruction::Xor(Register::R3, Register::R0),
        Instruction::Add(Register::R2, Register::R1),
        Instruction::AddOverflow(Register::R1, Register::R1),
        Instruction::Sub(Register::R0, Register::R2),
        Instruction::SubOverflow(Register::R3, Register::R1),
    ]);
    assert_eq!(
        bytes,
        vec![
            0, 72, 5, 9, 10, 255, 15, 16 | 4 | 2, 32 | 1, 48 | 12 | 3, 64 | 8, 80 | 4, 96 | 3,
            112 | 12, 128 | 8 | 1, 144 | 4 | 1, 160 | 2, 176 | 12 | 1
        ]
    );
    assert_eq!(Instruction::to_bytes(Vec::new()), Vec::<u8>::new());
    assert_eq!(u8::from(Register::R0), 0);
    assert_eq!(u8::from(Register::R3), 3);
}

#[test]
fn assembled_program_runs_as_written() {
    let program = Instruction::to_bytes(vec![
        Instruction::LoadConstant(Register::R0, b'A'),
        Instruction::LoadConstant(Register::R1, 1),
        Instruction::StoreMemory(Register::R0, 255),
        Instruction::Add(Register::R0, Register::R1),
        Instruction::StoreMemory(Register::R0, 255),
        Instruction::Move(Register::R2, Register::R0),
        Instruction::Sub(Register::R2, Register::R1),
        Instruction::SubOverflow(Register::R2, Register::R1),
        Instruction::StoreMemory(Register::R2, 255),
        Instruction::StoreMemory(Register::R2, 40),
        Instruction::LoadMemory(Register::R3, 40),
        Instruction::Xor(Register::R3, Register::R1),
        Instruction::StoreMemory(Register::R3, 255),
    ]);
    let mut output: Vec<char> = Vec::new();
    assert_eq!(alu(&program, &mut output), Ok(()));
    assert_eq!(output, vec!['A', 'B', '?', '>']);
}

#[test]
fn execute_refuses_what_is_no_instruction() {
    let mut machine = machine_with(7, 9);
    assert_eq!(machine.execute(192, 0), Err(AluError::InvalidInstruction(192)));
    assert_eq!(machine.execute(255, 3), Err(AluError::InvalidInstruction(255)));
    assert_eq!(register(&machine, 0), 7);
    assert_eq!(register(&machine, 1), 9);
    assert_eq!(register(&machine, 3), 0);
}
