use vstd::prelude::*;

use crate::text::{push_decimal, spec_decimal};

verus! {

/// Coarse outcome classes for a front end that decides exit codes.
#[derive(Debug, Clone, PartialEq)]
pub enum InterpreterError {
    CompileError,
    RuntimeError,
    ScannerError(Option<String>),
}

/// The errors of the execution core.
#[derive(Debug, Clone, PartialEq)]
pub enum CloxersError {
    /// Structural misuse: stack underflow, a missing constant, a chunk that
    /// ends without `Return`.
    BadInstruction(String),
    /// A byte of the instruction stream that names no instruction.
    OpCodeError { code: u8 },
    /// The constant pool is full.
    ConstantsOverflowed,
    InterpreterError(InterpreterError),
    /// A value operation met operands of the wrong kind.
    TypeError(String),
}

/// The text that describes an `InterpreterError`.
pub open spec fn spec_interpreter_message(e: InterpreterError) -> Seq<char> {
    match e {
        InterpreterError::CompileError => "Compile error"@,
        InterpreterError::RuntimeError => "Runtime error"@,
        InterpreterError::ScannerError(Some(s)) => "Scanner error: "@ + s@,
        InterpreterError::ScannerError(None) => "Scanner error"@,
    }
}

/// The failures of executing or listing a chunk, before they are rendered
/// as a `CloxersError`.
#[derive(Debug, Clone, Copy, PartialEq, Eq, Structural)]
pub enum Fault {
    /// A pop from an empty operand stack.
    StackUnderflow,
    /// A constant index past the end of the pool.
    MissingConstant(u8),
    /// A byte that names no instruction.
    UnknownOpcode(u8),
    /// An instruction whose operand bytes run past the end of the stream.
    MissingOperand,
    /// The stream ended before a `Return` ran.
    MissingReturn,
    /// A value operation met an operand that is not a number.
    NotANumber,
}

/// `e` is the error that reports `f`.
pub open spec fn reports(e: CloxersError, f: Fault) -> bool {
    match f {
        Fault::StackUnderflow => e matches CloxersError::BadInstruction(m) && m@ == "Stack underflow"@,
        Fault::MissingConstant(i) => e matches CloxersError::BadInstruction(m) && m@
            == "Missing constant at index "@ + spec_decimal(i as nat),
        Fault::UnknownOpcode(b) => e == CloxersError::OpCodeError { code: b },
        Fault::MissingOperand => e matches CloxersError::BadInstruction(m) && m@
            == "Missing operand"@,
        Fault::MissingReturn => e matches CloxersError::BadInstruction(m) && m@
            == "Chunk ended without Return"@,
        Fault::NotANumber => e is TypeError,
    }
}

impl Fault {
    /// The error that reports this fault.
    pub fn to_error(&self) -> (e: CloxersError)
        ensures
            reports(e, *self),
    {
        match self {
            Fault::StackUnderflow => CloxersError::BadInstruction(String::from_str("Stack underflow")),
            Fault::MissingConstant(i) => {
                let mut m = String::from_str("Missing constant at index ");
                push_decimal(&mut m, *i as usize);
                CloxersError::BadInstruction(m)
            },
            Fault::UnknownOpcode(b) => CloxersError::OpCodeError { code: *b },
            Fault::MissingOperand => CloxersError::BadInstruction(String::from_str("Missing operand")),
            Fault::MissingReturn => CloxersError::BadInstruction(
                String::from_str("Chunk ended without Return"),
            ),
            Fault::NotANumber => CloxersError::TypeError(String::from_str("Operands must be numbers")),
        }
    }
}

impl InterpreterError {
    pub fn message(&self) -> (r: String)
        ensures
            r@ == spec_interpreter_message(*self),
    {
        match self {
            InterpreterError::CompileError => String::from_str("Compile error"),
            InterpreterError::RuntimeError => String::from_str("Runtime error"),
            InterpreterError::ScannerError(Some(s)) => {
                let mut r = String::from_str("Scanner error: ");
                r.append(s.as_str());
                r
            },
            InterpreterError::ScannerError(None) => String::from_str("Scanner error"),
        }
    }
}

} // verus!
