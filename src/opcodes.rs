use vstd::prelude::*;

use crate::error::CloxersError;

verus! {

/// The instruction mnemonics of the virtual machine.
///
/// Each mnemonic has one byte encoding, one operand arity and one display
/// name. The spec functions below state each mapping once; the executable
/// mappings are proved equal to them, and decoding is proved to invert
/// encoding, so the facets cannot drift apart.
#[derive(Debug, Clone, Copy, PartialEq, Eq, Structural)]
pub enum OpCode {
    Return,
    Constant,
    Add,
    Subtract,
    Multiply,
    Divide,
    Negate,
}

/// The byte that encodes `op` in an instruction stream.
pub open spec fn spec_byte(op: OpCode) -> u8 {
    match op {
        OpCode::Return => 0,
        OpCode::Constant => 1,
        OpCode::Add => 2,
        OpCode::Subtract => 3,
        OpCode::Multiply => 4,
        OpCode::Divide => 5,
        OpCode::Negate => 6,
    }
}

/// The opcode encoded by `b`, if any.
pub open spec fn spec_decode_byte(b: u8) -> Option<OpCode> {
    if b == 0 {
        Some(OpCode::Return)
    } else if b == 1 {
        Some(OpCode::Constant)
    } else if b == 2 {
        Some(OpCode::Add)
    } else if b == 3 {
        Some(OpCode::Subtract)
    } else if b == 4 {
        Some(OpCode::Multiply)
    } else if b == 5 {
        Some(OpCode::Divide)
    } else if b == 6 {
        Some(OpCode::Negate)
    } else {
        None
    }
}

/// How many operand bytes follow the opcode byte of `op`.
pub open spec fn spec_arity(op: OpCode) -> nat {
    match op {
        OpCode::Constant => 1,
        _ => 0,
    }
}

/// The mnemonic shown for `op` in disassembly.
pub open spec fn spec_name(op: OpCode) -> Seq<char> {
    match op {
        OpCode::Return => "OP_RETURN"@,
        OpCode::Constant => "OP_CONSTANT"@,
        OpCode::Add => "OP_ADD"@,
        OpCode::Subtract => "OP_SUBTRACT"@,
        OpCode::Multiply => "OP_MULTIPLY"@,
        OpCode::Divide => "OP_DIVIDE"@,
        OpCode::Negate => "OP_NEGATE"@,
    }
}

impl OpCode {
    pub fn name(&self) -> (r: &'static str)
        ensures
            r@ == spec_name(*self),
    {
        match self {
            OpCode::Return => "OP_RETURN",
            OpCode::Constant => "OP_CONSTANT",
            OpCode::Add => "OP_ADD",
            OpCode::Subtract => "OP_SUBTRACT",
            OpCode::Multiply => "OP_MULTIPLY",
            OpCode::Divide => "OP_DIVIDE",
            OpCode::Negate => "OP_NEGATE",
        }
    }

    /// The number of operand bytes that follow this opcode.
    pub fn operand_offset(&self) -> (r: usize)
        ensures
            r == spec_arity(*self),
            r <= 2,
    {
        match self {
            OpCode::Constant => 1,
            OpCode::Return => 0,
            OpCode::Negate => 0,
            OpCode::Add => 0,
            OpCode::Subtract => 0,
            OpCode::Multiply => 0,
            OpCode::Divide => 0,
        }
    }

    pub fn to_byte(&self) -> (r: u8)
        ensures
            r == spec_byte(*self),
    {
        match self {
            OpCode::Return => 0,
            OpCode::Constant => 1,
            OpCode::Add => 2,
            OpCode::Subtract => 3,
            OpCode::Multiply => 4,
            OpCode::Divide => 5,
            OpCode::Negate => 6,
        }
    }

    /// Decodes an opcode byte; a byte that names no instruction is an
    /// `OpCodeError` carrying that byte.
    pub fn from_byte(b: u8) -> (r: Result<OpCode, CloxersError>)
        ensures
            match spec_decode_byte(b) {
                Some(op) => r == Ok::<OpCode, CloxersError>(op),
                None => r == Err::<OpCode, CloxersError>(CloxersError::OpCodeError { code: b }),
            },
    {
        match b {
            0 => Ok(OpCode::Return),
            1 => Ok(OpCode::Constant),
            2 => Ok(OpCode::Add),
            3 => Ok(OpCode::Subtract),
            4 => Ok(OpCode::Multiply),
            5 => Ok(OpCode::Divide),
            6 => Ok(OpCode::Negate),
            _ => Err(CloxersError::OpCodeError { code: b }),
        }
    }
}

impl From<OpCode> for u8 {
    fn from(op: OpCode) -> (r: u8) {
        op.to_byte()
    }
}

impl vstd::std_specs::convert::FromSpecImpl<OpCode> for u8 {
    open spec fn obeys_from_spec() -> bool {
        true
    }

    open spec fn from_spec(op: OpCode) -> u8 {
        spec_byte(op)
    }
}

/// Encoding an opcode and decoding the byte gives the opcode back.
pub proof fn lemma_byte_round_trip(op: OpCode)
    ensures
        spec_decode_byte(spec_byte(op)) == Some(op),
{
}

/// A byte that decodes to an opcode is that opcode's encoding.
pub proof fn lemma_decoded_byte_encodes(b: u8)
    ensures
        spec_decode_byte(b) matches Some(op) ==> spec_byte(op) == b,
{
}

} // verus!
