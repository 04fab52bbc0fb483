use cloxers::chunk::Chunk;
use cloxers::error::{CloxersError, InterpreterError};
use cloxers::opcodes::OpCode;
use cloxers::value::{BinaryOp, Value};
use cloxers::vm::{Outcome, VM};

fn number(x: f64) -> Value {
    Value::Number(x.to_bits())
}

fn arith(op: BinaryOp, left: u64, right: u64) -> u64 {
    let (a, b) = (f64::from_bits(left), f64::from_bits(right));
    let r = match op {
        BinaryOp::Add => a + b,
        BinaryOp::Subtract => a - b,
        BinaryOp::Multiply => a * b,
        BinaryOp::Divide => a / b,
    };
    r.to_bits()
}

/// Runs the machine to its end, doing its arithmetic.
fn execute(vm: &mut VM) -> Result<Value, CloxersError> {
    loop {
        match vm.run()? {
            Outcome::Halted(v) => return Ok(v),
            Outcome::Arithmetic { op, left, right } => vm.resume(arith(op, left, right)),
        }
    }
}

fn chunk_of(ops: &[OpCode]) -> Chunk {
    let mut chunk = Chunk::new();
    for op in ops {
        chunk.write(op.to_byte(), 1);
    }
    chunk
}

#[test]
fn test_vm() {
    let mut chunk = Chunk::new();
    let _ = chunk.write_constant(number(1.2), 1);
    let _ = chunk.write_constant(number(3.4), 1);
    chunk.write(OpCode::Add.to_byte(), 1);
    let _ = chunk.write_constant(number(5.6), 2);
    chunk.write(OpCode::Divide.to_byte(), 4);
    chunk.write(OpCode::Return.to_byte(), 2);
    let mut vm = VM::new(&chunk);
    let result = execute(&mut vm).unwrap();
    assert_eq!(vm.stack().len(), 0);
    let Value::Number(bits) = result else { panic!("not a number") };
    assert!((f64::from_bits(bits) - 0.8214285714285714).abs() <= 0.0000000000001);
}

#[test]
fn run_pauses_for_arithmetic() {
    let mut chunk = Chunk::new();
    let _ = chunk.write_constant(number(2.0), 1);
    let _ = chunk.write_constant(number(8.0), 1);
    chunk.write(OpCode::Subtract.to_byte(), 1);
    chunk.write(OpCode::Return.to_byte(), 1);
    let mut vm = VM::new(&chunk);
    assert_eq!(
        vm.run(),
        Ok(Outcome::Arithmetic { op: BinaryOp::Subtract, left: 2.0f64.to_bits(), right: 8.0f64.to_bits() })
    );
    assert_eq!(vm.ip(), 5);
    assert_eq!(vm.stack().len(), 0);
    vm.resume((-6.0f64).to_bits());
    assert_eq!(vm.run(), Ok(Outcome::Halted(number(-6.0))));
}

#[test]
fn return_stops_execution() {
    let mut chunk = Chunk::new();
    let _ = chunk.write_constant(Value::Bool(true), 1);
    chunk.write(OpCode::Return.to_byte(), 1);
    chunk.write(OpCode::Negate.to_byte(), 1);
    chunk.write(200, 1);
    let mut vm = VM::new(&chunk);
    assert_eq!(execute(&mut vm), Ok(Value::Bool(true)));
}

#[test]
fn underflow_on_empty_stack() {
    for op in [OpCode::Return, OpCode::Negate, OpCode::Add, OpCode::Subtract, OpCode::Multiply, OpCode::Divide] {
        let chunk = chunk_of(&[op, OpCode::Return]);
        let mut vm = VM::new(&chunk);
        assert_eq!(vm.run(), Err(CloxersError::BadInstruction("Stack underflow".to_string())));
    }
}

#[test]
fn underflow_on_one_operand() {
    let mut chunk = Chunk::new();
    let _ = chunk.write_constant(number(1.0), 1);
    chunk.write(OpCode::Multiply.to_byte(), 1);
    chunk.write(OpCode::Return.to_byte(), 1);
    let mut vm = VM::new(&chunk);
    assert!(matches!(vm.run(), Err(CloxersError::BadInstruction(_))));
    assert_eq!(vm.stack().len(), 0);
}

#[test]
fn adding_bool_and_number_is_a_type_error() {
    let mut chunk = Chunk::new();
    let _ = chunk.write_constant(Value::Nil, 1);
    let _ = chunk.write_constant(Value::Bool(true), 1);
    let _ = chunk.write_constant(number(1.0), 1);
    chunk.write(OpCode::Add.to_byte(), 1);
    chunk.write(OpCode::Return.to_byte(), 1);
    let mut vm = VM::new(&chunk);
    assert!(matches!(vm.run(), Err(CloxersError::TypeError(_))));
    assert_eq!(vm.stack(), &vec![Value::Nil]);
}

#[test]
fn negate_in_the_machine() {
    let mut chunk = Chunk::new();
    let _ = chunk.write_constant(number(2.5), 1);
    chunk.write(OpCode::Negate.to_byte(), 1);
    chunk.write(OpCode::Return.to_byte(), 1);
    let mut vm = VM::new(&chunk);
    assert_eq!(execute(&mut vm), Ok(number(-2.5)));
}

#[test]
fn negating_nil_in_the_machine_is_a_type_error() {
    let mut chunk = Chunk::new();
    let _ = chunk.write_constant(Value::Nil, 1);
    chunk.write(OpCode::Negate.to_byte(), 1);
    chunk.write(OpCode::Return.to_byte(), 1);
    let mut vm = VM::new(&chunk);
    assert!(matches!(vm.run(), Err(CloxersError::TypeError(_))));
}

#[test]
fn chunk_without_return_is_malformed() {
    let chunk = Chunk::new();
    let mut vm = VM::new(&chunk);
    assert_eq!(vm.run(), Err(CloxersError::BadInstruction("Chunk ended without Return".to_string())));
    let mut chunk = Chunk::new();
    let _ = chunk.write_constant(number(1.0), 1);
    let mut vm = VM::new(&chunk);
    assert!(matches!(vm.run(), Err(CloxersError::BadInstruction(_))));
}

#[test]
fn unknown_opcode_and_missing_constant() {
    let chunk = chunk_of(&[]);
    let mut chunk2 = chunk.clone();
    chunk2.write(77, 1);
    let mut vm = VM::new(&chunk2);
    assert_eq!(vm.run(), Err(CloxersError::OpCodeError { code: 77 }));
    let mut chunk3 = Chunk::new();
    chunk3.write(OpCode::Constant.to_byte(), 1);
    chunk3.write(12, 1);
    chunk3.write(OpCode::Return.to_byte(), 1);
    let mut vm = VM::new(&chunk3);
    assert_eq!(vm.run(), Err(CloxersError::BadInstruction("Missing constant at index 12".to_string())));
    let mut chunk4 = Chunk::new();
    chunk4.write(OpCode::Constant.to_byte(), 1);
    let mut vm = VM::new(&chunk4);
    assert_eq!(vm.run(), Err(CloxersError::BadInstruction("Missing operand".to_string())));
}

#[test]
fn division_by_zero_is_infinite() {
    let mut chunk = Chunk::new();
    let _ = chunk.write_constant(number(1.0), 1);
    let _ = chunk.write_constant(number(0.0), 1);
    chunk.write(OpCode::Divide.to_byte(), 1);
    chunk.write(OpCode::Return.to_byte(), 1);
    let mut vm = VM::new(&chunk);
    assert_eq!(execute(&mut vm), Ok(number(f64::INFINITY)));
}

#[test]
fn a_chunk_can_be_run_twice() {
    let mut chunk = Chunk::new();
    let _ = chunk.write_constant(number(3.0), 1);
    chunk.write(OpCode::Return.to_byte(), 1);
    assert_eq!(execute(&mut VM::new(&chunk)), Ok(number(3.0)));
    assert_eq!(execute(&mut VM::new(&chunk)), Ok(number(3.0)));
}

#[test]
fn negate_values() {
    for x in [0.0f64, 1.5, -7.25, 1e300, f64::INFINITY] {
        assert_eq!(number(x).negate(), Ok(number(-x)));
    }
    assert!(matches!(Value::Nil.negate(), Err(CloxersError::TypeError(_))));
    assert!(matches!(Value::Bool(true).negate(), Err(CloxersError::TypeError(_))));
}

#[test]
fn falsey_values() {
    assert!(Value::Nil.is_falsey());
    assert!(Value::Bool(false).is_falsey());
    assert!(!Value::Bool(true).is_falsey());
    assert!(!number(0.0).is_falsey());
}

#[test]
fn number_operands_need_numbers() {
    assert_eq!(number(1.0).number_operands(&number(2.0)), Ok((1.0f64.to_bits(), 2.0f64.to_bits())));
    assert!(matches!(Value::Bool(false).number_operands(&number(2.0)), Err(CloxersError::TypeError(_))));
}

#[test]
fn interpreter_error_messages() {
    assert_eq!(InterpreterError::CompileError.message(), "Compile error");
    assert_eq!(InterpreterError::RuntimeError.message(), "Runtime error");
    assert_eq!(InterpreterError::ScannerError(Some("@".to_string())).message(), "Scanner error: @");
    assert_eq!(InterpreterError::ScannerError(None).message(), "Scanner error");
}
