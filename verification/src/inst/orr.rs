//! ORR: the bitwise or of a register and the second operand.

use crate::inst::{DecodeError, ImmKind, Op2, ParseInstructionError};
use crate::inst::layout::{
    dst, dst_of, imm_flag, lemma_rebuild, lemma_word_fields, opcode, opcode_of, pack, word_of,
};
use crate::inst::operand::{lemma_operand_bytes, push_reg, reg_text};
use crate::inst::syntax::{
    check_count, count_spec, lower_tokens, lowered_tokens, operands_spec, parse_operands,
};
use crate::proc::{Processor, State};
use crate::text::spells;
use vstd::prelude::*;
use vstd::string::*;

verus! {

/// An ORR instruction. Its immediate is seven bits, signed.
#[derive(Clone, Copy, Debug, PartialEq, Eq, Structural)]
pub struct Orr {
    /// The register that is read and then written.
    pub op1: u16,
    /// What it is combined with.
    pub op2: Op2,
}

impl Orr {
    /// Whether the registers that the instruction names exist.
    pub open spec fn wf(self) -> bool {
        self.op1 < 16 && self.op2.wf()
    }

    /// The instruction that `word` encodes.
    pub open spec fn decode_spec(word: u16) -> Result<Orr, DecodeError> {
        if opcode(word) == 0x4 {
            Ok(Orr { op1: dst(word), op2: Op2::signed7(word) })
        } else {
            Err(DecodeError { word })
        }
    }

    /// Decodes `word`, which fails where its opcode is not that of ORR.
    pub fn decode(word: u16) -> (r: Result<Orr, DecodeError>)
        ensures
            r == Orr::decode_spec(word),
            r matches Ok(instr) ==> instr.wf(),
    {
        if opcode_of(word) == 0x4 {
            Ok(Orr { op1: dst_of(word), op2: Op2::decode_signed7(word) })
        } else {
            Err(DecodeError { word })
        }
    }

    /// The word that encodes the instruction.
    pub open spec fn encode_spec(self) -> u16 {
        word_of(0x4, self.op1, self.op2.low_byte())
    }

    /// Encodes the instruction.
    pub fn encode(&self) -> (word: u16)
        ensures
            word == self.encode_spec(),
    {
        pack(0x4, self.op1, self.op2.encode_low())
    }

    /// `word` with the bits cleared that ORR does not read: bits 6-4
    /// where the second operand is a register.
    pub open spec fn canonical(word: u16) -> u16 {
        if imm_flag(word) {
            word
        } else {
            word & 0xff8f
        }
    }

    /// Decoding a word and encoding the result gives the word back, but
    /// for the bits that ORR does not read.
    pub proof fn lemma_round_trip(word: u16)
        requires
            opcode(word) == 0x4,
        ensures
            Orr::decode_spec(word) is Ok,
            Orr::decode_spec(word).unwrap().encode_spec() == Orr::canonical(word),
    {
        lemma_operand_bytes(word);
        lemma_rebuild(word);
    }

    /// Whether the instruction is one that decoding yields.
    pub open spec fn decoded(self) -> bool {
        self.op1 < 16 && self.op2.is_signed7()
    }

    /// An instruction that decoding yields is decoded back from the word
    /// that encodes it.
    pub proof fn lemma_decode_encode(self)
        requires
            self.decoded(),
        ensures
            Orr::decode_spec(self.encode_spec()) == Ok::<Orr, DecodeError>(self),
    {
        let word = self.encode_spec();
        lemma_word_fields(0x4, self.op1, self.op2.low_byte());
        self.op2.lemma_operand_images(word);
    }

    /// The instruction that the tokens denote: `orr`, a register, a
    /// comma, an operand.
    pub open spec fn parse_spec(tokens: Seq<Seq<char>>) -> Result<Orr, ParseInstructionError> {
        let t = lowered_tokens(tokens);
        match count_spec(t.len(), 4) {
            Some(e) => Err(e),
            None => if t[0] != "orr"@ {
                Err(ParseInstructionError::BadInstruction)
            } else {
                match operands_spec(t, ImmKind::Bits7) {
                    Ok((op1, op2)) => Ok(Orr { op1, op2 }),
                    Err(e) => Err(e),
                }
            },
        }
    }

    /// Reads the instruction from its tokens.
    pub fn parse(tokens: &Vec<String>) -> (r: Result<Orr, ParseInstructionError>)
        ensures
            r == Orr::parse_spec(tokens.deep_view()),
            r matches Ok(instr) ==> instr.wf(),
    {
        let t = lower_tokens(tokens);
        if let Some(e) = check_count(t.len(), 4) {
            return Err(e);
        }
        if !spells(&t[0], "orr") {
            return Err(ParseInstructionError::BadInstruction);
        }
        match parse_operands(&t, ImmKind::Bits7) {
            Ok((op1, op2)) => Ok(Orr { op1, op2 }),
            Err(e) => Err(e),
        }
    }

    /// The instruction as the assembler writes it.
    pub open spec fn format_spec(self) -> Seq<char> {
        "orr "@ + reg_text(self.op1) + ", "@ + self.op2.text()
    }

    /// Writes the instruction as the assembler does.
    pub fn format(&self) -> (s: String)
        ensures
            s@ == self.format_spec(),
    {
        let mut s = String::from_str("orr ");
        push_reg(&mut s, self.op1);
        s.append(", ");
        self.op2.push_text(&mut s);
        s
    }

    /// The state after the instruction: the register holds the
    /// bitwise or; zero and negative are written, overflow and carry kept.
    pub open spec fn apply(self, s: State) -> State {
        let a = s.reg(self.op1);
        let b = s.value(self.op2);
        let res = a | b;
        s.with_flags(s.flags().with_result(res)).with_reg(self.op1, res)
    }

    /// Executes the instruction.
    pub fn execute(&self, proc: &mut Processor)
        requires
            self.wf(),
        ensures
            final(proc)@ == self.apply(old(proc)@),
    {
        let a = proc.regs.get(self.op1);
        let b = proc.value(self.op2);
        let res = a | b;
        let flags = proc.condition().set_result(res);
        proc.set_condition(flags);
        proc.regs.set(self.op1, res);
    }
}

} // verus!
