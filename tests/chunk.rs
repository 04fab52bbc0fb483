use cloxers::chunk::{Chunk, Instruction, MAX_CONSTANTS};
use cloxers::error::CloxersError;
use cloxers::opcodes::OpCode;
use cloxers::value::Value;

fn number(x: f64) -> Value {
    Value::Number(x.to_bits())
}

fn display(v: &Value) -> String {
    match v {
        Value::Number(bits) => format!("{}", f64::from_bits(*bits)),
        Value::Bool(b) => format!("{}", b),
        Value::Nil => "nil".to_string(),
    }
}

fn constant_texts(chunk: &Chunk) -> Vec<String> {
    chunk.constants.iter().map(display).collect()
}

fn all_instructions(chunk: &Chunk) -> Vec<Instruction> {
    let mut it = chunk.decode();
    let mut out = Vec::new();
    while let Some(ins) = it.next() {
        out.push(ins);
    }
    out
}

#[test]
fn test_chunk_new() {
    let chunk = Chunk::new();
    assert_eq!(chunk.code.len(), 0);
}

#[test]
fn test_chunk_write() {
    let mut chunk = Chunk::new();
    chunk.write(OpCode::Return.into(), 0);
    assert_eq!(chunk.code.len(), 1);
    assert_eq!(chunk.code[0], OpCode::Return.try_into().unwrap());
}

#[test]
fn test_chunk_disassemble() {
    let mut chunk = Chunk::new();
    chunk.write(OpCode::Return.into(), 5);
    let _ = chunk.write_constant(number(1.2), 1);
    let _ = chunk.write_constant(number(-5.0), 1);
    let _ = chunk.write(OpCode::Add.into(), 2);
    let result = chunk.disassemble("test", &constant_texts(&chunk));
    println!("{:?}", result);
    assert!(result.is_ok());

    let result = result.unwrap();

    let expected = [
        "== test ==\n",
        "1. 0000 OP_RETURN\n",
        "2. 0001 OP_CONSTANT     \t0 => 1.2\n",
        "3. 0001 OP_CONSTANT     \t1 => -5\n",
        "4. 0002 OP_ADD\n",
    ]
    .concat();
    println!("{}", result);
    assert_eq!(expected, result);
}

#[test]
fn disassemble_every_mnemonic() {
    let mut chunk = Chunk::new();
    for op in [OpCode::Negate, OpCode::Subtract, OpCode::Multiply, OpCode::Divide] {
        chunk.write(op.to_byte(), 1);
    }
    let text = chunk.disassemble("ops", &Vec::new()).unwrap();
    assert_eq!(
        text,
        "== ops ==\n1. 0006 OP_NEGATE\n2. 0003 OP_SUBTRACT\n3. 0004 OP_MULTIPLY\n4. 0005 OP_DIVIDE\n"
    );
}

#[test]
fn disassemble_unknown_opcode_fails() {
    let mut chunk = Chunk::new();
    chunk.write(OpCode::Return.to_byte(), 1);
    chunk.write(200, 1);
    let r = chunk.disassemble("bad", &Vec::new());
    assert_eq!(r, Err(CloxersError::OpCodeError { code: 200 }));
}

#[test]
fn disassemble_missing_constant_fails() {
    let mut chunk = Chunk::new();
    chunk.write(OpCode::Constant.to_byte(), 1);
    chunk.write(0, 1);
    let r = chunk.disassemble("bad", &Vec::new());
    assert_eq!(r, Err(CloxersError::BadInstruction("Missing constant at index 0".to_string())));
}

#[test]
fn disassemble_truncated_instruction_fails() {
    let mut chunk = Chunk::new();
    chunk.write(OpCode::Constant.to_byte(), 1);
    let r = chunk.disassemble("bad", &Vec::new());
    assert_eq!(r, Err(CloxersError::BadInstruction("Missing operand".to_string())));
}

#[test]
fn disassemble_empty_chunk_is_only_the_header() {
    let chunk = Chunk::new();
    assert_eq!(chunk.disassemble("empty", &Vec::new()).unwrap(), "== empty ==\n");
}

#[test]
fn opcode_bytes_round_trip() {
    for b in 0..=255u8 {
        match OpCode::from_byte(b) {
            Ok(op) => assert_eq!(op.to_byte(), b),
            Err(e) => {
                assert!(b > 6);
                assert_eq!(e, CloxersError::OpCodeError { code: b });
            }
        }
    }
    for op in [
        OpCode::Return,
        OpCode::Constant,
        OpCode::Add,
        OpCode::Subtract,
        OpCode::Multiply,
        OpCode::Divide,
        OpCode::Negate,
    ] {
        assert_eq!(OpCode::from_byte(op.to_byte()), Ok(op));
    }
}

#[test]
fn opcode_names_and_arity() {
    assert_eq!(OpCode::Constant.name(), "OP_CONSTANT");
    assert_eq!(OpCode::Negate.name(), "OP_NEGATE");
    assert_eq!(OpCode::Constant.operand_offset(), 1);
    assert_eq!(OpCode::Divide.operand_offset(), 0);
}

#[test]
fn decode_takes_operands_by_arity() {
    let mut chunk = Chunk::new();
    let _ = chunk.write_constant(number(1.0), 1);
    chunk.write(OpCode::Negate.to_byte(), 1);
    // the operand byte equals the Add opcode but is read as an operand
    let _ = chunk.add_constant(number(2.0));
    chunk.write(OpCode::Constant.to_byte(), 1);
    chunk.write(OpCode::Add.to_byte(), 1);
    chunk.write(OpCode::Return.to_byte(), 1);
    let ins = all_instructions(&chunk);
    assert_eq!(
        ins,
        vec![
            Instruction { opcode: 1, operand1: 0, operand2: 0 },
            Instruction { opcode: 6, operand1: 0, operand2: 0 },
            Instruction { opcode: 1, operand1: 2, operand2: 0 },
            Instruction { opcode: 0, operand1: 0, operand2: 0 },
        ]
    );
    assert!(ins.len() <= chunk.code.len());
}

#[test]
fn decode_stops_at_unknown_byte_and_restarts() {
    let mut chunk = Chunk::new();
    chunk.write(OpCode::Add.to_byte(), 1);
    chunk.write(99, 1);
    chunk.write(OpCode::Return.to_byte(), 1);
    assert_eq!(all_instructions(&chunk).len(), 1);
    assert_eq!(all_instructions(&chunk).len(), 1);
    let mut it = chunk.decode();
    assert!(it.next().is_some());
    assert!(it.next().is_none());
    assert!(it.next().is_none());
}

#[test]
fn write_constant_fills_the_pool_then_overflows() {
    let mut chunk = Chunk::new();
    for i in 0..256 {
        assert!(chunk.write_constant(number(i as f64), 1).is_ok());
    }
    assert_eq!(chunk.constants.len(), MAX_CONSTANTS);
    assert_eq!(chunk.code[chunk.code.len() - 1], 255);
    let before = chunk.code.len();
    assert_eq!(chunk.write_constant(Value::Nil, 1), Err(CloxersError::ConstantsOverflowed));
    assert_eq!(chunk.constants.len(), 256);
    assert_eq!(chunk.code.len(), before);
    assert_eq!(chunk.lines.len(), before);
}

#[test]
fn add_constant_returns_index() {
    let mut chunk = Chunk::new();
    assert_eq!(chunk.add_constant(Value::Nil), 0);
    assert_eq!(chunk.add_constant(Value::Bool(true)), 1);
    assert_eq!(chunk.code.len(), 0);
}
