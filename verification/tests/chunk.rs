use clox::chunk::{
    heading, Chunk, Disassembly, InvalidOpcode, Opcode, Operation, TooManyConstants,
    MAX_CONSTANTS,
};
use clox::value::Value;

fn number(value: f64) -> Value {
    Value::from_bits(value.to_bits())
}

#[test]
fn new_chunk_is_empty() {
    let chunk = Chunk::new();
    assert!(chunk.code().is_empty());
    assert!(chunk.constants().is_empty());
    assert!(chunk.lines().is_empty());
    assert_eq!(chunk.disassemble(), vec![]);
}

#[test]
fn opcodes_have_their_bytes() {
    assert_eq!(u8::from(Opcode::Constant), 0);
    assert_eq!(u8::from(Opcode::Negate), 1);
    assert_eq!(u8::from(Opcode::Return), 2);
    assert_eq!(u8::from(Opcode::Add), 3);
    assert_eq!(u8::from(Opcode::Subtract), 4);
    assert_eq!(u8::from(Opcode::Multiply), 5);
    assert_eq!(u8::from(Opcode::Divide), 6);
    let byte: u8 = Opcode::Return.into();
    assert_eq!(byte, 2);
}

#[test]
fn opcodes_are_read_back_from_their_bytes() {
    let all = [
        Opcode::Constant,
        Opcode::Negate,
        Opcode::Return,
        Opcode::Add,
        Opcode::Subtract,
        Opcode::Multiply,
        Opcode::Divide,
    ];
    for opcode in all {
        assert_eq!(Opcode::try_from(u8::from(opcode)), Ok(opcode));
    }
    for byte in 0..=255u8 {
        match Opcode::try_from(byte) {
            Ok(opcode) => assert_eq!(u8::from(opcode), byte),
            Err(error) => {
                assert!(byte > 6);
                assert_eq!(error, InvalidOpcode { byte });
            }
        }
    }
    assert_eq!(Opcode::try_from(7), Err(InvalidOpcode { byte: 7 }));
    assert_eq!(Opcode::try_from(255), Err(InvalidOpcode { byte: 255 }));
    let opcode: Result<Opcode, InvalidOpcode> = 3u8.try_into();
    assert_eq!(opcode, Ok(Opcode::Add));
}

#[test]
fn opcodes_have_their_names() {
    assert_eq!(Opcode::Constant.mnemonic(), "OP_CONSTANT");
    assert_eq!(Opcode::Negate.mnemonic(), "OP_NEGATE");
    assert_eq!(Opcode::Return.mnemonic(), "OP_RETURN");
    assert_eq!(Opcode::Add.mnemonic(), "OP_ADD");
    assert_eq!(Opcode::Subtract.mnemonic(), "OP_SUBTRACT");
    assert_eq!(Opcode::Multiply.mnemonic(), "OP_MULTIPLY");
    assert_eq!(Opcode::Divide.mnemonic(), "OP_DIVIDE");
}

#[test]
fn code_and_lines_grow_together() {
    let mut chunk = Chunk::new();
    let index = chunk.add_constant(number(1.2)).unwrap();
    chunk.write_opcode(Opcode::Constant, 123);
    chunk.write_constant(index, 123);
    chunk.write_opcode(Opcode::Negate, 124);
    chunk.write_opcode(Opcode::Return, 125);
    assert_eq!(chunk.code(), &[0, 0, 1, 2]);
    assert_eq!(chunk.lines(), &[123, 123, 124, 125]);
    assert_eq!(chunk.constants(), &[number(1.2)]);
}

#[test]
fn constants_are_numbered_in_order() {
    let mut chunk = Chunk::new();
    assert_eq!(chunk.add_constant(number(1.0)), Ok(0));
    assert_eq!(chunk.add_constant(number(2.0)), Ok(1));
    assert_eq!(chunk.add_constant(number(1.0)), Ok(2));
    assert_eq!(chunk.constants(), &[number(1.0), number(2.0), number(1.0)]);
    assert!(chunk.code().is_empty());
}

#[test]
fn full_pool_takes_no_further_constant() {
    let mut chunk = Chunk::new();
    for i in 0..MAX_CONSTANTS {
        assert_eq!(chunk.add_constant(number(i as f64)), Ok(i as u8));
    }
    assert_eq!(chunk.constants().len(), 256);
    assert_eq!(chunk.add_constant(number(256.0)), Err(TooManyConstants));
    assert_eq!(chunk.constants().len(), 256);
    assert_eq!(chunk.constants()[0], number(0.0));
    assert_eq!(chunk.constants()[255], number(255.0));
    assert_eq!(chunk.add_constant(number(257.0)), Err(TooManyConstants));
    assert_eq!(chunk.constants().len(), 256);
}

#[test]
fn same_line_is_shown_once() {
    let mut chunk = Chunk::new();
    let index = chunk.add_constant(number(1.2)).unwrap();
    chunk.write_opcode(Opcode::Constant, 123);
    chunk.write_constant(index, 123);
    chunk.write_opcode(Opcode::Return, 123);
    assert_eq!(
        chunk.disassemble(),
        vec![
            Disassembly {
                offset: 0,
                line: Some(123),
                operation: Operation::Constant(0, Some(number(1.2))),
            },
            Disassembly { offset: 2, line: None, operation: Operation::Simple(Opcode::Return) },
        ]
    );
}

#[test]
fn other_line_is_shown_again() {
    let mut chunk = Chunk::new();
    let index = chunk.add_constant(number(1.2)).unwrap();
    chunk.write_opcode(Opcode::Constant, 123);
    chunk.write_constant(index, 123);
    chunk.write_opcode(Opcode::Return, 124);
    assert_eq!(
        chunk.disassemble(),
        vec![
            Disassembly {
                offset: 0,
                line: Some(123),
                operation: Operation::Constant(0, Some(number(1.2))),
            },
            Disassembly {
                offset: 2,
                line: Some(124),
                operation: Operation::Simple(Opcode::Return),
            },
        ]
    );
}

#[test]
fn instruction_is_disassembled_where_it_stands() {
    let mut chunk = Chunk::new();
    let first = chunk.add_constant(number(1.0)).unwrap();
    let second = chunk.add_constant(number(2.0)).unwrap();
    chunk.write_opcode(Opcode::Constant, 1);
    chunk.write_constant(first, 1);
    chunk.write_opcode(Opcode::Constant, 1);
    chunk.write_constant(second, 1);
    chunk.write_opcode(Opcode::Add, 2);
    chunk.write_opcode(Opcode::Return, 2);
    assert_eq!(
        chunk.disassemble_instruction(0),
        (
            Disassembly {
                offset: 0,
                line: Some(1),
                operation: Operation::Constant(0, Some(number(1.0))),
            },
            2
        )
    );
    assert_eq!(
        chunk.disassemble_instruction(2),
        (
            Disassembly { offset: 2, line: None, operation: Operation::Constant(1, Some(number(2.0))) },
            4
        )
    );
    assert_eq!(
        chunk.disassemble_instruction(4),
        (Disassembly { offset: 4, line: Some(2), operation: Operation::Simple(Opcode::Add) }, 5)
    );
    assert_eq!(
        chunk.disassemble_instruction(5),
        (Disassembly { offset: 5, line: None, operation: Operation::Simple(Opcode::Return) }, 6)
    );
    // An operand read as an instruction: offset 1 holds the byte 0.
    assert_eq!(
        chunk.disassemble_instruction(1),
        (
            Disassembly { offset: 1, line: None, operation: Operation::Constant(0, Some(number(1.0))) },
            3
        )
    );
}

#[test]
fn unknown_byte_is_listed_and_passed() {
    let mut chunk = Chunk::new();
    chunk.write_constant(200, 1);
    chunk.write_opcode(Opcode::Negate, 1);
    chunk.write_constant(7, 2);
    assert_eq!(
        chunk.disassemble(),
        vec![
            Disassembly { offset: 0, line: Some(1), operation: Operation::Unknown(200) },
            Disassembly { offset: 1, line: None, operation: Operation::Simple(Opcode::Negate) },
            Disassembly { offset: 2, line: Some(2), operation: Operation::Unknown(7) },
        ]
    );
}

#[test]
fn constant_load_without_its_constant_is_listed() {
    let mut chunk = Chunk::new();
    chunk.write_opcode(Opcode::Constant, 1);
    chunk.write_constant(3, 1);
    chunk.write_opcode(Opcode::Constant, 1);
    assert_eq!(
        chunk.disassemble(),
        vec![
            Disassembly { offset: 0, line: Some(1), operation: Operation::Constant(3, None) },
            Disassembly {
                offset: 2,
                line: None,
                operation: Operation::Truncated(Opcode::Constant),
            },
        ]
    );
    assert_eq!(
        chunk.disassemble_instruction(2),
        (
            Disassembly {
                offset: 2,
                line: None,
                operation: Operation::Truncated(Opcode::Constant),
            },
            3
        )
    );
}

#[test]
fn negation_flips_the_sign() {
    for value in [0.0, -0.0, 1.5, -2.25, f64::INFINITY, f64::NEG_INFINITY, f64::MAX, f64::MIN_POSITIVE, 5e-324] {
        assert_eq!(number(value).negate().to_bits(), (-value).to_bits());
        assert_eq!(number(value).negate().negate(), number(value));
    }
    assert_eq!(number(f64::NAN).negate().to_bits(), (-f64::NAN).to_bits());
    assert_eq!(Value::from_bits(0).negate().to_bits(), 0x8000_0000_0000_0000);
    assert_eq!(Value::from_bits(0x8000_0000_0000_0001).negate(), Value { bits: 1 });
}

fn listing(chunk: &Chunk) -> Vec<String> {
    chunk
        .disassemble()
        .iter()
        .map(|entry| match entry.operation {
            Operation::Constant(_, Some(value)) => {
                entry.render(&format!("{}", f64::from_bits(value.to_bits())))
            }
            _ => entry.render(""),
        })
        .collect()
}

#[test]
fn listing_shows_offset_line_and_instruction() {
    let mut chunk = Chunk::new();
    let index = chunk.add_constant(number(1.2)).unwrap();
    chunk.write_opcode(Opcode::Constant, 123);
    chunk.write_constant(index, 123);
    chunk.write_opcode(Opcode::Return, 123);
    assert_eq!(
        listing(&chunk),
        vec!["0000  123 OP_CONSTANT         0 '1.2'", "0002    | OP_RETURN"]
    );
    assert_eq!(heading("test chunk"), "== test chunk ==");
    assert_eq!(heading(""), "==  ==");
}

#[test]
fn listing_shows_the_line_again_where_it_changes() {
    let mut chunk = Chunk::new();
    let index = chunk.add_constant(number(-0.5)).unwrap();
    chunk.write_opcode(Opcode::Constant, 7);
    chunk.write_constant(index, 7);
    chunk.write_opcode(Opcode::Negate, 7);
    chunk.write_opcode(Opcode::Add, 8);
    chunk.write_opcode(Opcode::Subtract, 8);
    chunk.write_opcode(Opcode::Multiply, 12345);
    chunk.write_opcode(Opcode::Divide, 12345);
    chunk.write_opcode(Opcode::Return, 4294967295);
    assert_eq!(
        listing(&chunk),
        vec![
            "0000    7 OP_CONSTANT         0 '-0.5'",
            "0002    | OP_NEGATE",
            "0003    8 OP_ADD",
            "0004    | OP_SUBTRACT",
            "0005 12345 OP_MULTIPLY",
            "0006    | OP_DIVIDE",
            "0007 4294967295 OP_RETURN",
        ]
    );
}

#[test]
fn listing_shows_what_is_wrong_with_the_code() {
    let mut chunk = Chunk::new();
    chunk.write_constant(200, 1);
    chunk.write_opcode(Opcode::Constant, 1);
    chunk.write_constant(3, 1);
    chunk.write_opcode(Opcode::Constant, 2);
    assert_eq!(
        listing(&chunk),
        vec![
            "0000    1 Unknown opcode 200",
            "0001    | OP_CONSTANT         3",
            "0003    2 OP_CONSTANT",
        ]
    );
}

#[test]
fn rendering_is_the_formatting_of_the_standard_library() {
    let offsets = [0, 1, 9, 10, 99, 100, 999, 1000, 9999, 10000, 123456, usize::MAX];
    let lines = [0, 1, 9, 10, 99, 100, 999, 1000, 9999, 10000, 65536, u32::MAX];
    for offset in offsets {
        for line in lines {
            let head = format!("{0:0>1$} {2:>4} ", offset, 4, line);
            let mark = format!("{0:0>1$}    | ", offset, 4);
            let simple =
                Disassembly { offset, line: Some(line), operation: Operation::Simple(Opcode::Add) };
            assert_eq!(simple.render("unused"), format!("{}{}", head, "OP_ADD"));
            let marked = Disassembly { offset, line: None, operation: Operation::Unknown(line as u8) };
            assert_eq!(marked.render(""), format!("{}Unknown opcode {}", mark, line as u8));
            for constant in [0u8, 7, 10, 99, 100, 255] {
                let load = Disassembly {
                    offset,
                    line: Some(line),
                    operation: Operation::Constant(constant, Some(number(1.5))),
                };
                assert_eq!(
                    load.render("1.5"),
                    format!("{}{:<16} {:>4} '{}'", head, "OP_CONSTANT", constant, 1.5)
                );
            }
        }
    }
}
