use vstd::prelude::*;

use crate::error::CloxersError;
use crate::opcodes::{spec_arity, spec_byte, spec_decode_byte, OpCode};
use crate::value::Value;

verus! {

/// The largest number of constants a chunk can hold: a constant is
/// addressed by one byte.
pub const MAX_CONSTANTS: usize = 256;

/// A unit of bytecode: the instruction stream, its constant pool, and the
/// source line of each byte of the stream.
#[derive(Debug, Clone)]
pub struct Chunk {
    pub code: Vec<u8>,
    pub constants: Vec<Value>,
    pub lines: Vec<usize>,
}

/// One decoded instruction: the opcode byte and its operand bytes, 0 where
/// unused.
#[derive(Debug, Clone, Copy, PartialEq, Eq, Structural)]
pub struct Instruction {
    pub opcode: u8,
    pub operand1: u8,
    pub operand2: u8,
}

/// What stands at one offset of an instruction stream.
#[derive(Debug, Clone, Copy, PartialEq, Eq, Structural)]
pub enum Fetched {
    /// The offset is at or past the end of the stream.
    End,
    /// The byte there names no instruction.
    Unknown(u8),
    /// An opcode whose operand bytes run past the end of the stream.
    Truncated(u8),
    /// A whole instruction, and the offset just past it.
    Instruction(Instruction, usize),
}

/// The instruction that starts at `pc` of `code`.
pub open spec fn spec_fetch(code: Seq<u8>, pc: int) -> Fetched {
    if pc < 0 || pc >= code.len() {
        Fetched::End
    } else {
        match spec_decode_byte(code[pc]) {
            None => Fetched::Unknown(code[pc]),
            Some(op) => {
                let a = spec_arity(op) as int;
                if pc + 1 + a > code.len() {
                    Fetched::Truncated(code[pc])
                } else {
                    Fetched::Instruction(
                        Instruction {
                            opcode: code[pc],
                            operand1: if a >= 1 { code[pc + 1] } else { 0 },
                            operand2: if a >= 2 { code[pc + 2] } else { 0 },
                        },
                        (pc + 1 + a) as usize,
                    )
                }
            },
        }
    }
}

/// The instructions that the decoder yields from offset `pc` on: it stops
/// at the end of the stream and at the first byte it cannot decode.
pub open spec fn spec_decode(code: Seq<u8>, pc: int) -> Seq<Instruction>
    decreases code.len() - pc,
{
    match spec_fetch(code, pc) {
        Fetched::Instruction(ins, next) => if next > pc {
            seq![ins] + spec_decode(code, next as int)
        } else {
            seq![]
        },
        _ => seq![],
    }
}

impl Chunk {
    /// Lines and code stay in step; the pool fits one-byte addressing.
    pub open spec fn wf(&self) -> bool {
        &&& self.lines@.len() == self.code@.len()
        &&& self.constants@.len() <= MAX_CONSTANTS
    }

    pub fn new() -> (r: Chunk)
        ensures
            r.code@ == Seq::<u8>::empty(),
            r.constants@ == Seq::<Value>::empty(),
            r.lines@ == Seq::<usize>::empty(),
            r.wf(),
    {
        Chunk { code: Vec::new(), constants: Vec::new(), lines: Vec::new() }
    }

    /// Appends one byte of the instruction stream, opcode or operand, with
    /// its source line.
    pub fn write(&mut self, byte: u8, line: usize)
        ensures
            final(self).code@ == old(self).code@.push(byte),
            final(self).lines@ == old(self).lines@.push(line),
            final(self).constants@ == old(self).constants@,
            old(self).wf() ==> final(self).wf(),
    {
        self.code.push(byte);
        self.lines.push(line);
    }

    /// Appends a constant to the pool and returns its index.
    pub fn add_constant(&mut self, value: Value) -> (r: usize)
        ensures
            final(self).constants@ == old(self).constants@.push(value),
            r == old(self).constants@.len(),
            final(self).code@ == old(self).code@,
            final(self).lines@ == old(self).lines@,
    {
        self.constants.push(value);
        self.constants.len() - 1
    }

    /// Adds a constant and emits the instruction that loads it. A pool that
    /// is already full is left as it is, with `ConstantsOverflowed`.
    pub fn write_constant(&mut self, value: Value, line: usize) -> (r: Result<(), CloxersError>)
        ensures
            old(self).constants@.len() >= MAX_CONSTANTS ==> {
                &&& r == Err::<(), CloxersError>(CloxersError::ConstantsOverflowed)
                &&& *final(self) == *old(self)
            },
            old(self).constants@.len() < MAX_CONSTANTS ==> {
                &&& r is Ok
                &&& final(self).constants@ == old(self).constants@.push(value)
                &&& final(self).code@ == old(self).code@.push(spec_byte(OpCode::Constant)).push(
                    old(self).constants@.len() as u8,
                )
                &&& final(self).lines@ == old(self).lines@.push(line).push(line)
            },
            old(self).wf() ==> final(self).wf(),
    {
        if self.constants.len() >= MAX_CONSTANTS {
            return Err(CloxersError::ConstantsOverflowed);
        }
        let index = self.add_constant(value);
        self.write(OpCode::Constant.to_byte(), line);
        self.write(index as u8, line);
        Ok(())
    }

    /// What stands at offset `pc` of the instruction stream.
    pub fn fetch(&self, pc: usize) -> (r: Fetched)
        ensures
            r == spec_fetch(self.code@, pc as int),
    {
        if pc >= self.code.len() {
            return Fetched::End;
        }
        let byte = self.code[pc];
        match OpCode::from_byte(byte) {
            Err(_) => Fetched::Unknown(byte),
            Ok(op) => {
                let a = op.operand_offset();
                if a > self.code.len() - pc - 1 {
                    Fetched::Truncated(byte)
                } else {
                    let operand1 = if a >= 1 { self.code[pc + 1] } else { 0 };
                    let operand2 = if a >= 2 { self.code[pc + 2] } else { 0 };
                    Fetched::Instruction(Instruction { opcode: byte, operand1, operand2 }, pc + 1 + a)
                }
            },
        }
    }

    /// A fresh decoding pass over the instruction stream, from offset 0.
    pub fn decode(&self) -> (r: ChunkIter<'_>)
        ensures
            r.pc == 0,
            r.code@ == self.code@,
    {
        ChunkIter { pc: 0, code: self.code.as_slice() }
    }
}

/// A decoding pass: yields one instruction at a time and stops at the end of
/// the stream or at the first byte that it cannot decode.
pub struct ChunkIter<'a> {
    pub pc: usize,
    pub code: &'a [u8],
}

impl<'a> ChunkIter<'a> {
    /// The instructions that this pass has still to yield.
    pub open spec fn remaining(&self) -> Seq<Instruction> {
        spec_decode(self.code@, self.pc as int)
    }

    pub fn next(&mut self) -> (r: Option<Instruction>)
        ensures
            final(self).code@ == old(self).code@,
            match spec_fetch(old(self).code@, old(self).pc as int) {
                Fetched::Instruction(ins, next) => r == Some(ins) && final(self).pc == next,
                _ => r is None && final(self).pc == old(self).pc,
            },
            r matches Some(ins) ==> old(self).remaining() == seq![ins] + final(self).remaining(),
            r is None ==> old(self).remaining() == Seq::<Instruction>::empty(),
    {
        let pc = self.pc;
        if pc >= self.code.len() {
            return None;
        }
        let byte = self.code[pc];
        match OpCode::from_byte(byte) {
            Err(_) => None,
            Ok(op) => {
                let a = op.operand_offset();
                if a > self.code.len() - pc - 1 {
                    None
                } else {
                    let operand1 = if a >= 1 { self.code[pc + 1] } else { 0 };
                    let operand2 = if a >= 2 { self.code[pc + 2] } else { 0 };
                    self.pc = pc + 1 + a;
                    Some(Instruction { opcode: byte, operand1, operand2 })
                }
            },
        }
    }
}

/// Each decoded instruction takes its opcode byte and exactly as many
/// operand bytes as the opcode's arity.
pub proof fn lemma_fetch_consumes_arity(code: Seq<u8>, pc: int)
    requires
        code.len() <= usize::MAX,
    ensures
        spec_fetch(code, pc) matches Fetched::Instruction(ins, next) ==> {
            &&& ins.opcode == code[pc]
            &&& spec_decode_byte(code[pc]) is Some
            &&& next == pc + 1 + spec_arity(spec_decode_byte(code[pc])->0)
        },
{
}

/// A decoding pass yields no more instructions than there are bytes left.
pub proof fn lemma_decode_len(code: Seq<u8>, pc: int)
    requires
        0 <= pc,
    ensures
        spec_decode(code, pc).len() <= if pc <= code.len() { code.len() - pc } else { 0 },
    decreases code.len() - pc,
{
    match spec_fetch(code, pc) {
        Fetched::Instruction(ins, next) => {
            if next > pc {
                lemma_decode_len(code, next as int);
            }
        },
        _ => {},
    }
}

} // verus!
