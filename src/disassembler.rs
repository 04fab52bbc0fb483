use vstd::prelude::*;

use crate::chunk::{spec_fetch, Chunk, Fetched, Instruction};
use crate::error::{reports, CloxersError, Fault};
use crate::opcodes::{spec_decode_byte, spec_name, OpCode};
use crate::text::{
    push_decimal,
    push_padded_left,
    push_padded_right,
    spec_decimal,
    spec_pad_left,
    spec_pad_right,
};

verus! {

/// The column width that mnemonics with an operand are padded to.
pub const NAME_WIDTH: usize = 16;

/// The start of an instruction's line: its 1-based index and its opcode
/// byte, zero-padded to four digits.
pub open spec fn spec_line_head(idx: nat, opcode: u8) -> Seq<char> {
    spec_decimal(idx) + ". "@ + spec_pad_left(spec_decimal(opcode as nat), 4, '0') + " "@
}

/// The rest of a constant-loading line, after its head.
pub open spec fn spec_constant_line(
    name: Seq<char>,
    offset: u8,
    code_len: nat,
    constant_text: Seq<Seq<char>>,
) -> Result<Seq<char>, Fault> {
    if offset as nat >= code_len || offset as nat >= constant_text.len() {
        Err(Fault::MissingConstant(offset))
    } else {
        Ok(spec_pad_right(name, NAME_WIDTH as nat) + "\t"@ + spec_decimal(offset as nat) + " => "@
            + constant_text[offset as int] + "\n"@)
    }
}

/// The disassembly line of instruction `ins`, the `idx`-th of its chunk.
pub open spec fn spec_instruction_line(
    idx: nat,
    ins: Instruction,
    code_len: nat,
    constant_text: Seq<Seq<char>>,
) -> Result<Seq<char>, Fault> {
    match spec_decode_byte(ins.opcode) {
        None => Err(Fault::UnknownOpcode(ins.opcode)),
        Some(OpCode::Constant) => match spec_constant_line(
            spec_name(OpCode::Constant),
            ins.operand1,
            code_len,
            constant_text,
        ) {
            Ok(rest) => Ok(spec_line_head(idx, ins.opcode) + rest),
            Err(f) => Err(f),
        },
        Some(op) => Ok(spec_line_head(idx, ins.opcode) + spec_name(op) + "\n"@),
    }
}

/// The lines of the instructions from offset `pc` on, the first numbered
/// `idx`; the first failure stops the listing.
pub open spec fn spec_listing(
    code: Seq<u8>,
    constant_text: Seq<Seq<char>>,
    pc: int,
    idx: nat,
) -> Result<Seq<char>, Fault>
    decreases code.len() - pc,
{
    match spec_fetch(code, pc) {
        Fetched::End => Ok(Seq::empty()),
        Fetched::Unknown(b) => Err(Fault::UnknownOpcode(b)),
        Fetched::Truncated(_) => Err(Fault::MissingOperand),
        Fetched::Instruction(ins, next) => if next <= pc {
            Err(Fault::MissingOperand)
        } else {
            match spec_instruction_line(idx, ins, code.len(), constant_text) {
                Err(f) => Err(f),
                Ok(line) => match spec_listing(code, constant_text, next as int, idx + 1) {
                    Ok(rest) => Ok(line + rest),
                    Err(f) => Err(f),
                },
            }
        },
    }
}

/// `prefix` followed by a listing, or the listing's failure.
pub open spec fn spec_after(prefix: Seq<char>, r: Result<Seq<char>, Fault>) -> Result<Seq<char>, Fault> {
    match r {
        Ok(rest) => Ok(prefix + rest),
        Err(f) => Err(f),
    }
}

/// The whole disassembly: a header naming the chunk, then one line per
/// instruction.
pub open spec fn spec_disassembly(
    code: Seq<u8>,
    constant_text: Seq<Seq<char>>,
    name: Seq<char>,
) -> Result<Seq<char>, Fault> {
    spec_after("== "@ + name + " ==\n"@, spec_listing(code, constant_text, 0, 1))
}

/// `r` is the executable form of the spec result `s`.
pub open spec fn text_matches(r: Result<String, CloxersError>, s: Result<Seq<char>, Fault>) -> bool {
    match s {
        Ok(t) => r matches Ok(out) && out@ == t,
        Err(f) => r matches Err(e) && reports(e, f),
    }
}

/// The views of a list of strings.
pub open spec fn texts_view(v: Seq<String>) -> Seq<Seq<char>> {
    v.map_values(|s: String| s@)
}

impl Chunk {
    /// Renders the chunk as text: a header line `== name ==`, then one line
    /// per instruction. `constant_text` holds the display form of each
    /// constant, in pool order.
    pub fn disassemble(&self, name: &str, constant_text: &Vec<String>) -> (r: Result<
        String,
        CloxersError,
    >)
        ensures
            text_matches(r, spec_disassembly(self.code@, texts_view(constant_text@), name@)),
    {
        let ghost texts = texts_view(constant_text@);
        let mut output = String::from_str("== ");
        output.append(name);
        output.append(" ==\n");
        let mut pc: usize = 0;
        // the number of lines written so far
        let mut idx: usize = 0;
        let code_len = self.code.len();
        loop
            invariant
                code_len == self.code@.len(),
                pc <= code_len,
                idx <= pc,
                texts == texts_view(constant_text@),
                spec_disassembly(self.code@, texts, name@) == spec_after(
                    output@,
                    spec_listing(self.code@, texts, pc as int, idx as nat + 1),
                ),
            ensures
                spec_disassembly(self.code@, texts, name@) == Ok::<Seq<char>, Fault>(output@),
            decreases code_len - pc,
        {
            let ins = match self.fetch(pc) {
                Fetched::End => {
                    assert(output@ + Seq::<char>::empty() =~= output@);
                    break;
                },
                Fetched::Unknown(b) => return Err(Fault::UnknownOpcode(b).to_error()),
                Fetched::Truncated(_) => return Err(Fault::MissingOperand.to_error()),
                Fetched::Instruction(ins, next) => {
                    pc = next;
                    idx = idx + 1;
                    ins
                },
            };
            let ghost before = output@;
            match self.disassemble_instruction(&mut output, idx, &ins, constant_text) {
                Ok(()) => {},
                Err(e) => return Err(e),
            }
            proof {
                let line = spec_instruction_line(idx as nat, ins, self.code@.len(), texts)->Ok_0;
                assert(output@ == before + line);
                match spec_listing(self.code@, texts, pc as int, idx as nat + 1) {
                    Ok(rest) => {
                        assert(before + (line + rest) =~= output@ + rest);
                    },
                    Err(_) => {},
                }
            }
        }
        Ok(output)
    }

    /// Appends the line of instruction `ins`, numbered `idx`; nothing is
    /// appended where it fails.
    pub fn disassemble_instruction(
        &self,
        output: &mut String,
        idx: usize,
        ins: &Instruction,
        constant_text: &Vec<String>,
    ) -> (r: Result<(), CloxersError>)
        ensures
            match spec_instruction_line(idx as nat, *ins, self.code@.len(), texts_view(constant_text@)) {
                Ok(line) => r is Ok && final(output)@ == old(output)@ + line,
                Err(f) => r matches Err(e) && reports(e, f) && final(output)@ == old(output)@,
            },
    {
        let op = match OpCode::from_byte(ins.opcode) {
            Ok(op) => op,
            Err(e) => return Err(e),
        };
        let mut line = String::new();
        push_decimal(&mut line, idx);
        line.append(". ");
        let mut digits = String::new();
        push_decimal(&mut digits, ins.opcode as usize);
        proof {
            reveal_strlit("0");
        }
        push_padded_left(&mut line, digits.as_str(), 4, "0");
        line.append(" ");
        match op {
            OpCode::Constant => {
                match self.constant_instruction(&mut line, op.name(), ins.operand1, constant_text) {
                    Ok(()) => {},
                    Err(e) => return Err(e),
                }
            },
            _ => self.simple_instruction(&mut line, op.name()),
        }
        output.append(line.as_str());
        Ok(())
    }

    /// Appends a mnemonic on a line of its own.
    pub fn simple_instruction(&self, output: &mut String, name: &str)
        ensures
            final(output)@ == old(output)@ + name@ + "\n"@,
    {
        output.append(name);
        output.append("\n");
    }

    /// Appends the rest of a constant-loading line: the mnemonic padded to
    /// its column, the constant index, and the constant's display form.
    /// An index past the instruction stream or past the pool appends
    /// nothing and is a `BadInstruction`.
    pub fn constant_instruction(
        &self,
        output: &mut String,
        name: &str,
        offset: u8,
        constant_text: &Vec<String>,
    ) -> (r: Result<(), CloxersError>)
        ensures
            match spec_constant_line(name@, offset, self.code@.len(), texts_view(constant_text@)) {
                Ok(rest) => r is Ok && final(output)@ == old(output)@ + rest,
                Err(f) => r matches Err(e) && reports(e, f) && final(output)@ == old(output)@,
            },
    {
        let index = offset as usize;
        if index >= self.code.len() || index >= constant_text.len() {
            return Err(Fault::MissingConstant(offset).to_error());
        }
        let ghost before = output@;
        push_padded_right(output, name, NAME_WIDTH);
        output.append("\t");
        push_decimal(output, index);
        output.append(" => ");
        output.append(constant_text[index].as_str());
        output.append("\n");
        proof {
            assert(output@ =~= before + (spec_pad_right(name@, NAME_WIDTH as nat) + "\t"@
                + spec_decimal(offset as nat) + " => "@ + constant_text@[index as int]@ + "\n"@));
        }
        Ok(())
    }
}

} // verus!
