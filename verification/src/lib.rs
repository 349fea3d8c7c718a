//! Codec for the bytecode stream of a BEAM module's code chunk.
//!
//! The library decodes a flat byte buffer into a sequence of typed
//! instructions and re-encodes such a sequence into the exact bytes it
//! came from.  Operand values travel in the compact term format: a tag
//! byte whose low three bits select the term kind and whose high five
//! bits begin a variable-length integer sub-encoding; each instruction is
//! its opcode byte followed by the operands its schema entry declares.
use vstd::prelude::*;

pub mod bigint;
pub mod error;
pub mod instruction;
pub mod laws;
pub mod laws_instr;
pub mod reader;
pub mod term;
pub mod wire;

use crate::error::DecodeError;
use crate::error::DecodeErrorV;
use crate::error::EncodeError;
use crate::instruction::Instruction;
use crate::reader::Reader;
use crate::wire::TermV;

verus! {

broadcast use crate::wire::lemma_skip_skip;

/// Decode a whole byte buffer as consecutive instructions, to their wire
/// level form: the opcode byte and the operand views of each.
pub open spec fn dec_stream(s: Seq<u8>) -> Result<Seq<(u8, Seq<TermV>)>, DecodeErrorV>
    decreases s.len(),
{
    if s.len() == 0 {
        Ok(Seq::empty())
    } else {
        match instruction::dec_instr(s) {
            Ok((op, args, n)) => {
                if 1 <= n <= s.len() {
                    match dec_stream(s.skip(n as int)) {
                        Ok(rest) => Ok(seq![(op, args)] + rest),
                        Err(e) => Err(e),
                    }
                } else {
                    Err(DecodeErrorV::IoError)
                }
            },
            Err(e) => Err(e),
        }
    }
}

/// The wire-level form of a sequence of instructions: each one's opcode
/// byte and operand views.
pub open spec fn stream_pairs(instructions: Seq<Instruction>) -> Seq<(u8, Seq<TermV>)> {
    instructions.map_values(
        |i: Instruction| (instruction::opcode_of(i), instruction::args_of(i)),
    )
}

/// The canonical byte string of a sequence of instructions, back to back.
pub open spec fn enc_stream(instructions: Seq<Instruction>) -> Seq<u8>
    decreases instructions,
{
    if instructions.len() == 0 {
        Seq::empty()
    } else {
        instruction::enc_instr(instructions[0]) + enc_stream(
            instructions.subrange(1, instructions.len() as int),
        )
    }
}

/// Extending an encoded prefix of an instruction sequence by one element.
pub proof fn lemma_enc_stream_take(instructions: Seq<Instruction>, j: int)
    requires
        0 <= j < instructions.len(),
    ensures
        enc_stream(instructions.take(j + 1)) == enc_stream(instructions.take(j))
            + instruction::enc_instr(instructions[j]),
    decreases j,
{
    if j == 0 {
        assert(instructions.take(1) =~= seq![instructions[0]]);
        assert(instructions.take(1).subrange(1, 1) =~= Seq::<Instruction>::empty());
        assert(instructions.take(0) =~= Seq::<Instruction>::empty());
        assert(enc_stream(instructions.take(1)) =~= enc_stream(instructions.take(0))
            + instruction::enc_instr(instructions[0]));
    } else {
        let sub = instructions.subrange(1, instructions.len() as int);
        lemma_enc_stream_take(sub, j - 1);
        assert(instructions.take(j + 1)[0] == instructions[0]);
        assert(instructions.take(j)[0] == instructions[0]);
        assert(instructions.take(j + 1).subrange(1, j + 1) =~= sub.take(j));
        assert(instructions.take(j).subrange(1, j) =~= sub.take(j - 1));
        assert(sub[j - 1] == instructions[j]);
        assert(enc_stream(instructions.take(j + 1)) == instruction::enc_instr(instructions[0])
            + (enc_stream(sub.take(j - 1)) + instruction::enc_instr(instructions[j])));
        assert(enc_stream(instructions.take(j + 1)) =~= enc_stream(instructions.take(j))
            + instruction::enc_instr(instructions[j]));
    }
}

/// Decode a bytecode buffer: instructions back to back until the buffer is
/// exhausted.  The empty buffer decodes to the empty sequence, and on
/// success every byte of the buffer is consumed.
pub fn decode_instructions(bytecode: &[u8]) -> (res: Result<Vec<Instruction>, DecodeError>)
    ensures
        match res {
            Ok(v) => dec_stream(bytecode@) == Ok::<_, DecodeErrorV>(stream_pairs(v@)),
            Err(e) => dec_stream(bytecode@) matches Err(se) && se == e@,
        },
{
    let mut r = Reader::new(bytecode);
    let mut instructions: Vec<Instruction> = Vec::new();
    proof {
        assert(stream_pairs(instructions@) =~= Seq::<(u8, Seq<TermV>)>::empty());
        assert(bytecode@.skip(0) =~= bytecode@);
    }
    while !r.is_empty()
        invariant
            r.remaining().len() <= bytecode@.len(),
            dec_stream(bytecode@) == (match dec_stream(r.remaining()) {
                Ok(rest) => Ok::<_, DecodeErrorV>(stream_pairs(instructions@) + rest),
                Err(e) => Err(e),
            }),
        decreases r.remaining().len(),
    {
        let ghost cur = r.remaining();
        let ghost done = stream_pairs(instructions@);
        let ins = match Instruction::decode(&mut r) {
            Ok(i) => i,
            Err(e) => {
                return Err(e);
            },
        };
        proof {
            let (op, args, n) = instruction::dec_instr(cur)->Ok_0;
            assert(dec_stream(cur) == (match dec_stream(cur.skip(n as int)) {
                Ok(rest) => Ok::<_, DecodeErrorV>(seq![(op, args)] + rest),
                Err(e) => Err(e),
            }));
            assert(stream_pairs(instructions@.push(ins)) =~= done.push((op, args)));
            if let Ok(rest) = dec_stream(cur.skip(n as int)) {
                assert(done + (seq![(op, args)] + rest) =~= done.push((op, args)) + rest);
            }
        }
        instructions.push(ins);
    }
    proof {
        assert(dec_stream(r.remaining()) == Ok::<_, DecodeErrorV>(
            Seq::<(u8, Seq<TermV>)>::empty(),
        ));
        assert(stream_pairs(instructions@) + Seq::<(u8, Seq<TermV>)>::empty() =~= stream_pairs(
            instructions@,
        ));
    }
    Ok(instructions)
}

/// Encode instructions back to back into a fresh buffer.
pub fn encode_instructions(instructions: &[Instruction]) -> (res: Result<Vec<u8>, EncodeError>)
    ensures
        match res {
            Ok(v) => v@ == enc_stream(instructions@),
            Err(e) => false,
        },
{
    let mut out: Vec<u8> = Vec::new();
    let mut j: usize = 0;
    proof {
        assert(out@ =~= enc_stream(instructions@.take(0)));
    }
    while j < instructions.len()
        invariant
            0 <= j <= instructions@.len(),
            out@ == enc_stream(instructions@.take(j as int)),
        decreases instructions@.len() - j,
    {
        let _ = instructions[j].encode(&mut out);
        proof {
            lemma_enc_stream_take(instructions@, j as int);
        }
        j = j + 1;
    }
    proof {
        assert(instructions@.take(instructions@.len() as int) =~= instructions@);
    }
    Ok(out)
}

} // verus!
