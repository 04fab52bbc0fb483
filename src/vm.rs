use vstd::prelude::*;

use crate::chunk::{spec_fetch, Chunk, Fetched};
use crate::error::{reports, CloxersError, Fault};
use crate::opcodes::{spec_decode_byte, OpCode};
use crate::value::{spec_neg_bits, BinaryOp, Value};

verus! {

/// Where a run of the machine stopped without an error.
#[derive(Debug, Clone, Copy, PartialEq, Eq, Structural)]
pub enum Outcome {
    /// `Return` ran and popped this value: the machine's result.
    Halted(Value),
    /// An arithmetic instruction popped these two numbers (bit patterns,
    /// `left` first); the caller combines them and hands the result to
    /// `resume` before running on.
    Arithmetic { op: BinaryOp, left: u64, right: u64 },
}

/// The effect of one instruction on the machine.
pub enum Step {
    /// Execution goes on at `ip` with `stack`.
    Next(int, Seq<Value>),
    /// Execution stops with the result, leaving `ip` and `stack`.
    Stop(Result<Outcome, Fault>, int, Seq<Value>),
}

/// The arithmetic operation of an opcode, if it is one.
pub open spec fn spec_binary_op(op: OpCode) -> Option<BinaryOp> {
    match op {
        OpCode::Add => Some(BinaryOp::Add),
        OpCode::Subtract => Some(BinaryOp::Subtract),
        OpCode::Multiply => Some(BinaryOp::Multiply),
        OpCode::Divide => Some(BinaryOp::Divide),
        _ => None,
    }
}

/// An arithmetic instruction: pop the right operand, then the left; both
/// must be numbers.
pub open spec fn spec_binary_step(op: BinaryOp, next: int, stack: Seq<Value>) -> Step {
    if stack.len() == 0 {
        Step::Stop(Err(Fault::StackUnderflow), next, stack)
    } else if stack.len() == 1 {
        Step::Stop(Err(Fault::StackUnderflow), next, stack.drop_last())
    } else {
        let right = stack.last();
        let left = stack.drop_last().last();
        let rest = stack.drop_last().drop_last();
        match (left, right) {
            (Value::Number(a), Value::Number(b)) => Step::Stop(
                Ok(Outcome::Arithmetic { op, left: a, right: b }),
                next,
                rest,
            ),
            _ => Step::Stop(Err(Fault::NotANumber), next, rest),
        }
    }
}

/// The instruction at `ip`, executed on `stack`.
pub open spec fn spec_step(code: Seq<u8>, constants: Seq<Value>, ip: int, stack: Seq<Value>) -> Step {
    match spec_fetch(code, ip) {
        Fetched::End => Step::Stop(Err(Fault::MissingReturn), ip, stack),
        Fetched::Unknown(b) => Step::Stop(Err(Fault::UnknownOpcode(b)), ip, stack),
        Fetched::Truncated(_) => Step::Stop(Err(Fault::MissingOperand), ip, stack),
        Fetched::Instruction(ins, next) => {
            let next = next as int;
            match spec_decode_byte(ins.opcode) {
                Some(OpCode::Return) => if stack.len() == 0 {
                    Step::Stop(Err(Fault::StackUnderflow), next, stack)
                } else {
                    Step::Stop(Ok(Outcome::Halted(stack.last())), next, stack.drop_last())
                },
                Some(OpCode::Constant) => if (ins.operand1 as int) < constants.len() {
                    Step::Next(next, stack.push(constants[ins.operand1 as int]))
                } else {
                    Step::Stop(Err(Fault::MissingConstant(ins.operand1)), next, stack)
                },
                Some(OpCode::Negate) => if stack.len() == 0 {
                    Step::Stop(Err(Fault::StackUnderflow), next, stack)
                } else {
                    match stack.last() {
                        Value::Number(n) => Step::Next(
                            next,
                            stack.drop_last().push(Value::Number(spec_neg_bits(n))),
                        ),
                        _ => Step::Stop(Err(Fault::NotANumber), next, stack.drop_last()),
                    }
                },
                Some(op) => spec_binary_step(spec_binary_op(op)->0, next, stack),
                None => Step::Stop(Err(Fault::UnknownOpcode(ins.opcode)), next, stack),
            }
        },
    }
}

/// Runs from `ip` on `stack` until an instruction stops the machine: the
/// result, and the `ip` and stack it leaves.
pub open spec fn spec_run(code: Seq<u8>, constants: Seq<Value>, ip: int, stack: Seq<Value>) -> (
    Result<Outcome, Fault>,
    int,
    Seq<Value>,
)
    decreases code.len() - ip,
{
    match spec_step(code, constants, ip, stack) {
        Step::Next(next, st) => if ip < next <= code.len() {
            spec_run(code, constants, next, st)
        } else {
            (Err(Fault::MissingReturn), next, st)
        },
        Step::Stop(r, next, st) => (r, next, st),
    }
}

/// `r` is the executable form of the spec result `s`.
pub open spec fn outcome_matches(r: Result<Outcome, CloxersError>, s: Result<Outcome, Fault>) -> bool {
    match s {
        Ok(o) => r == Ok::<Outcome, CloxersError>(o),
        Err(f) => r matches Err(e) && reports(e, f),
    }
}

/// A stack machine executing one chunk.
pub struct VM<'a> {
    chunk: &'a Chunk,
    ip: usize,
    stack: Vec<Value>,
}

impl<'a> VM<'a> {
    pub closed spec fn spec_chunk(&self) -> Chunk {
        *self.chunk
    }

    /// The offset of the next instruction to execute.
    pub closed spec fn spec_ip(&self) -> int {
        self.ip as int
    }

    /// The operand stack, bottom first.
    pub closed spec fn spec_stack(&self) -> Seq<Value> {
        self.stack@
    }

    /// The next instruction lies within the chunk's stream, or just past it.
    pub open spec fn wf(&self) -> bool {
        0 <= self.spec_ip() <= self.spec_chunk().code@.len()
    }

    pub fn new(chunk: &'a Chunk) -> (r: VM<'a>)
        ensures
            r.spec_chunk() == *chunk,
            r.spec_ip() == 0,
            r.spec_stack() == Seq::<Value>::empty(),
            r.wf(),
    {
        VM { chunk, ip: 0, stack: Vec::new() }
    }

    pub fn ip(&self) -> (r: usize)
        ensures
            r == self.spec_ip(),
    {
        self.ip
    }

    pub fn stack(&self) -> (r: &Vec<Value>)
        ensures
            r@ == self.spec_stack(),
    {
        &self.stack
    }

    fn pop(&mut self) -> (r: Result<Value, CloxersError>)
        ensures
            final(self).chunk == old(self).chunk,
            final(self).ip == old(self).ip,
            old(self).stack@.len() == 0 ==> {
                &&& r matches Err(e) && reports(e, Fault::StackUnderflow)
                &&& final(self).stack@ == old(self).stack@
            },
            old(self).stack@.len() > 0 ==> {
                &&& r == Ok::<Value, CloxersError>(old(self).stack@.last())
                &&& final(self).stack@ == old(self).stack@.drop_last()
            },
    {
        match self.stack.pop() {
            Some(v) => Ok(v),
            None => Err(Fault::StackUnderflow.to_error()),
        }
    }

    fn run_binary_op(&mut self, op: BinaryOp, next: usize) -> (r: Result<Outcome, CloxersError>)
        ensures
            final(self).chunk == old(self).chunk,
            final(self).ip == old(self).ip,
            spec_binary_step(op, next as int, old(self).stack@) matches Step::Stop(s, _, st)
                && outcome_matches(r, s) && final(self).stack@ == st,
    {
        let b = match self.pop() {
            Ok(v) => v,
            Err(e) => return Err(e),
        };
        let a = match self.pop() {
            Ok(v) => v,
            Err(e) => return Err(e),
        };
        match a.number_operands(&b) {
            Ok((left, right)) => Ok(Outcome::Arithmetic { op, left, right }),
            Err(_) => Err(Fault::NotANumber.to_error()),
        }
    }

    /// Executes the instruction at `ip`: `None` where execution goes on.
    fn step(&mut self) -> (r: Option<Result<Outcome, CloxersError>>)
        ensures
            final(self).chunk == old(self).chunk,
            match spec_step(old(self).chunk.code@, old(self).chunk.constants@, old(self).ip as int, old(self).stack@) {
                Step::Next(next, st) => r is None && final(self).ip == next && final(self).stack@ == st,
                Step::Stop(s, next, st) => r matches Some(rr) && outcome_matches(rr, s)
                    && final(self).ip == next && final(self).stack@ == st,
            },
    {
        let ins = match self.chunk.fetch(self.ip) {
            Fetched::End => return Some(Err(Fault::MissingReturn.to_error())),
            Fetched::Unknown(b) => return Some(Err(Fault::UnknownOpcode(b).to_error())),
            Fetched::Truncated(_) => return Some(Err(Fault::MissingOperand.to_error())),
            Fetched::Instruction(ins, next) => {
                self.ip = next;
                ins
            },
        };
        let op = match OpCode::from_byte(ins.opcode) {
            Ok(op) => op,
            Err(e) => return Some(Err(e)),
        };
        match op {
            OpCode::Return => Some(
                match self.pop() {
                    Ok(v) => Ok(Outcome::Halted(v)),
                    Err(e) => Err(e),
                },
            ),
            OpCode::Constant => {
                let index = ins.operand1 as usize;
                if index < self.chunk.constants.len() {
                    let c = self.chunk.constants[index];
                    self.stack.push(c);
                    None
                } else {
                    Some(Err(Fault::MissingConstant(ins.operand1).to_error()))
                }
            },
            OpCode::Negate => {
                let v = match self.pop() {
                    Ok(v) => v,
                    Err(e) => return Some(Err(e)),
                };
                match v.negate() {
                    Ok(n) => {
                        self.stack.push(n);
                        None
                    },
                    Err(_) => Some(Err(Fault::NotANumber.to_error())),
                }
            },
            OpCode::Add => Some(self.run_binary_op(BinaryOp::Add, self.ip)),
            OpCode::Subtract => Some(self.run_binary_op(BinaryOp::Subtract, self.ip)),
            OpCode::Multiply => Some(self.run_binary_op(BinaryOp::Multiply, self.ip)),
            OpCode::Divide => Some(self.run_binary_op(BinaryOp::Divide, self.ip)),
        }
    }

    /// Executes from the current instruction until `Return` runs, an
    /// arithmetic instruction needs its result, or an error stops the
    /// machine.
    pub fn run(&mut self) -> (r: Result<Outcome, CloxersError>)
        requires
            old(self).wf(),
        ensures
            final(self).spec_chunk() == old(self).spec_chunk(),
            final(self).wf(),
            outcome_matches(
                r,
                spec_run(
                    old(self).spec_chunk().code@,
                    old(self).spec_chunk().constants@,
                    old(self).spec_ip(),
                    old(self).spec_stack(),
                ).0,
            ),
            final(self).spec_ip() == spec_run(
                old(self).spec_chunk().code@,
                old(self).spec_chunk().constants@,
                old(self).spec_ip(),
                old(self).spec_stack(),
            ).1,
            final(self).spec_stack() == spec_run(
                old(self).spec_chunk().code@,
                old(self).spec_chunk().constants@,
                old(self).spec_ip(),
                old(self).spec_stack(),
            ).2,
    {
        let ghost code = self.chunk.code@;
        let ghost constants = self.chunk.constants@;
        let ghost start = spec_run(code, constants, self.ip as int, self.stack@);
        // the call tells the proof that the stream length fits a usize
        let _len = self.chunk.code.len();
        loop
            invariant
                code.len() <= usize::MAX,
                self.chunk == old(self).chunk,
                code == self.chunk.code@,
                constants == self.chunk.constants@,
                self.ip <= code.len(),
                spec_run(code, constants, self.ip as int, self.stack@) == start,
                start == spec_run(
                    old(self).spec_chunk().code@,
                    old(self).spec_chunk().constants@,
                    old(self).spec_ip(),
                    old(self).spec_stack(),
                ),
            decreases code.len() - self.ip,
        {
            let ghost ip0 = self.ip as int;
            let ghost stack0 = self.stack@;
            proof {
                lemma_step_advances(code, constants, ip0, stack0);
            }
            match self.step() {
                None => {},
                Some(r) => {
                    proof {
                        lemma_step_stop_bound(code, constants, ip0, stack0);
                    }
                    return r;
                },
            }
        }
    }

    /// Pushes the number that an `Arithmetic` outcome asked for.
    pub fn resume(&mut self, result: u64)
        ensures
            final(self).spec_chunk() == old(self).spec_chunk(),
            final(self).spec_ip() == old(self).spec_ip(),
            final(self).spec_stack() == old(self).spec_stack().push(Value::Number(result)),
            old(self).wf() ==> final(self).wf(),
    {
        self.stack.push(Value::Number(result));
    }
}

/// The opcode of the whole instruction at `ip`, if one stands there.
pub open spec fn spec_op_at(code: Seq<u8>, ip: int) -> Option<OpCode> {
    match spec_fetch(code, ip) {
        Fetched::Instruction(ins, _) => spec_decode_byte(ins.opcode),
        _ => None,
    }
}

/// `Return` or `Negate` on an empty stack, and an arithmetic instruction on
/// a stack of fewer than two values, stop the run with a stack underflow,
/// which is reported as a `BadInstruction`.
pub proof fn lemma_stack_underflow(code: Seq<u8>, constants: Seq<Value>, ip: int, stack: Seq<Value>)
    requires
        spec_op_at(code, ip) matches Some(op) && (((op is Return || op is Negate) && stack.len()
            == 0) || (spec_binary_op(op) is Some && stack.len() < 2)),
    ensures
        spec_run(code, constants, ip, stack).0 == Err::<Outcome, Fault>(Fault::StackUnderflow),
        forall|e: CloxersError| reports(e, Fault::StackUnderflow) ==> e is BadInstruction,
{
}

/// An arithmetic instruction whose two operands are not both numbers stops
/// the run with a `TypeError`, and the stack is left without the two
/// operands and with nothing pushed.
pub proof fn lemma_arithmetic_type_error(
    code: Seq<u8>,
    constants: Seq<Value>,
    ip: int,
    stack: Seq<Value>,
)
    requires
        spec_op_at(code, ip) matches Some(op) && spec_binary_op(op) is Some,
        stack.len() >= 2,
        !(stack.last() is Number && stack[stack.len() - 2] is Number),
    ensures
        spec_run(code, constants, ip, stack).0 == Err::<Outcome, Fault>(Fault::NotANumber),
        spec_run(code, constants, ip, stack).2 == stack.subrange(0, stack.len() - 2),
        forall|e: CloxersError| reports(e, Fault::NotANumber) ==> e is TypeError,
{
    assert(stack.drop_last().drop_last() =~= stack.subrange(0, stack.len() - 2));
    assert(stack.drop_last().last() == stack[stack.len() - 2]);
}

/// An instruction that lets execution go on moves `ip` forward, within the
/// stream.
pub proof fn lemma_step_advances(code: Seq<u8>, constants: Seq<Value>, ip: int, stack: Seq<Value>)
    requires
        code.len() <= usize::MAX,
        0 <= ip,
    ensures
        spec_step(code, constants, ip, stack) matches Step::Next(next, st) ==> ip < next <= code.len()
            && spec_run(code, constants, ip, stack) == spec_run(code, constants, next, st),
{
}

/// An instruction that stops execution leaves `ip` within the stream, and
/// the run's result is the instruction's.
pub proof fn lemma_step_stop_bound(code: Seq<u8>, constants: Seq<Value>, ip: int, stack: Seq<Value>)
    requires
        code.len() <= usize::MAX,
        0 <= ip <= code.len(),
    ensures
        spec_step(code, constants, ip, stack) matches Step::Stop(s, next, st) ==> 0 <= next
            <= code.len() && spec_run(code, constants, ip, stack) == (s, next, st),
{
}

} // verus!
