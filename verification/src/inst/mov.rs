//! MOV, NEG and NOT: writes the second operand to a register, as it is,
//! negated, or complemented.

use crate::inst::{DecodeError, ImmKind, Op2, ParseInstructionError};
use crate::inst::layout::{
    dst, dst_of, imm_flag, lemma_fields, lemma_rebuild, low4, opcode, opcode_of, pack, word_of,
};
use crate::inst::operand::{lemma_operand_bytes, push_reg, reg_text};
use crate::inst::syntax::{
    check_count, count_spec, lower_tokens, lowered_tokens, operands_spec, parse_operands,
};
use crate::alu::sub_spec;
use crate::proc::{Processor, State};
use crate::text::spells;
use vstd::prelude::*;
use vstd::string::*;

verus! {

/// What is done to the operand before it is written: bits 5-4 of a word
/// whose operand is a register.
#[derive(Clone, Copy, Debug, PartialEq, Eq, Structural)]
pub enum Mode {
    /// Nothing.
    Mov,
    /// Negation in two's complement.
    Neg,
    /// Bitwise complement.
    Not,
}

impl Mode {
    /// The two bits that encode the mode.
    pub open spec fn code(self) -> u16 {
        match self {
            Mode::Mov => 0,
            Mode::Neg => 1,
            Mode::Not => 2,
        }
    }

    /// The mnemonic of the mode.
    pub open spec fn name(self) -> Seq<char> {
        match self {
            Mode::Mov => "mov"@,
            Mode::Neg => "neg"@,
            Mode::Not => "not"@,
        }
    }

    /// The mode that a mnemonic names.
    pub open spec fn named(token: Seq<char>) -> Option<Mode> {
        if token == "mov"@ {
            Some(Mode::Mov)
        } else if token == "neg"@ {
            Some(Mode::Neg)
        } else if token == "not"@ {
            Some(Mode::Not)
        } else {
            None
        }
    }

    /// What the mode makes of the word `b`: the word itself, the word
    /// that stands for the negated number, or the word with every bit
    /// turned, which is what is missing to sixteen ones.
    pub open spec fn of(self, b: u16) -> u16 {
        match self {
            Mode::Mov => b,
            Mode::Neg => sub_spec(0, b).0,
            Mode::Not => (0xffff - b) as u16,
        }
    }
}

proof fn lemma_not(b: u16)
    by (bit_vector)
    ensures
        !b == 0xffff - b,
{
}

/// A MOV, NEG or NOT instruction. Its immediate is seven bits, signed,
/// and can only be moved.
#[derive(Clone, Copy, Debug, PartialEq, Eq, Structural)]
pub struct Mov {
    /// The register that is written.
    pub op1: u16,
    /// What is written to it.
    pub op2: Op2,
    /// What is done to the operand first.
    pub mode: Mode,
}

impl Mov {
    /// Whether the registers that the instruction names exist.
    pub open spec fn wf(self) -> bool {
        self.op1 < 16 && self.op2.wf()
    }

    /// The instruction that `word` encodes. An immediate is always
    /// moved; with a register, bits 5-4 are the mode, and `11` is none.
    pub open spec fn decode_spec(word: u16) -> Result<Mov, DecodeError> {
        if opcode(word) != 0xa {
            Err(DecodeError { word })
        } else if imm_flag(word) {
            Ok(Mov { op1: dst(word), op2: Op2::signed7(word), mode: Mode::Mov })
        } else if word / 0x10 % 4 == 0 {
            Ok(Mov { op1: dst(word), op2: Op2::signed7(word), mode: Mode::Mov })
        } else if word / 0x10 % 4 == 1 {
            Ok(Mov { op1: dst(word), op2: Op2::signed7(word), mode: Mode::Neg })
        } else if word / 0x10 % 4 == 2 {
            Ok(Mov { op1: dst(word), op2: Op2::signed7(word), mode: Mode::Not })
        } else {
            Err(DecodeError { word })
        }
    }

    /// Decodes `word`, which fails where its opcode is not that of MOV
    /// or its mode is none.
    pub fn decode(word: u16) -> (r: Result<Mov, DecodeError>)
        ensures
            r == Mov::decode_spec(word),
            r matches Ok(instr) ==> instr.wf(),
    {
        if opcode_of(word) != 0xa {
            return Err(DecodeError { word });
        }
        proof {
            lemma_fields(word);
        }
        let op1 = dst_of(word);
        let op2 = Op2::decode_signed7(word);
        let bits = (word & 0x0030) >> 4;
        let mode = if word & 0x0080 != 0 {
            Mode::Mov
        } else if bits == 0 {
            Mode::Mov
        } else if bits == 1 {
            Mode::Neg
        } else if bits == 2 {
            Mode::Not
        } else {
            return Err(DecodeError { word });
        };
        Ok(Mov { op1, op2, mode })
    }

    /// The low byte of the word that encodes the instruction: the mode
    /// goes with a register only.
    pub open spec fn low_byte(self) -> u16 {
        match self.op2 {
            Op2::Reg(r) => (self.mode.code() * 0x10 + r % 0x10) as u16,
            Op2::Imm(imm) => (0x80 + imm % 0x80) as u16,
        }
    }

    /// The word that encodes the instruction.
    pub open spec fn encode_spec(self) -> u16 {
        word_of(0xa, self.op1, self.low_byte())
    }

    /// Encodes the instruction.
    pub fn encode(&self) -> (word: u16)
        ensures
            word == self.encode_spec(),
    {
        let low: u16 = match self.op2 {
            Op2::Reg(r) => match self.mode {
                Mode::Mov => r % 0x10,
                Mode::Neg => 0x10 + r % 0x10,
                Mode::Not => 0x20 + r % 0x10,
            },
            Op2::Imm(imm) => 0x80 + imm % 0x80,
        };
        pack(0xa, self.op1, low)
    }

    /// `word` with the bits cleared that MOV does not read: bit 6 where
    /// the operand is a register.
    pub open spec fn canonical(word: u16) -> u16 {
        if imm_flag(word) {
            word
        } else {
            word & 0xffbf
        }
    }

    /// Decoding a word and encoding the result gives the word back, but
    /// for the bits that MOV does not read.
    pub proof fn lemma_round_trip(word: u16)
        requires
            Mov::decode_spec(word) is Ok,
        ensures
            Mov::decode_spec(word).unwrap().encode_spec() == Mov::canonical(word),
    {
        lemma_operand_bytes(word);
        lemma_rebuild(word);
        let instr = Mov::decode_spec(word).unwrap();
        if !imm_flag(word) {
            assert(instr.op2 == Op2::Reg(low4(word)));
            assert(instr.mode.code() == word / 0x10 % 4);
            assert(low4(word) % 0x10 == low4(word));
        }
    }

    /// Whether the instruction is one that decoding yields: an
    /// immediate is only moved.
    pub open spec fn decoded(self) -> bool {
        self.op1 < 16 && self.op2.is_signed7() && (self.op2 is Imm ==> self.mode is Mov)
    }

    /// An instruction that decoding yields is decoded back from the word
    /// that encodes it.
    pub proof fn lemma_decode_encode(self)
        requires
            self.decoded(),
        ensures
            Mov::decode_spec(self.encode_spec()) == Ok::<Mov, DecodeError>(self),
    {
        let word = self.encode_spec();
        if let Op2::Reg(r) = self.op2 {
            crate::inst::layout::lemma_mode_bits(self.mode.code(), r);
        }
        crate::inst::layout::lemma_word_fields(0xa, self.op1, self.low_byte());
        self.op2.lemma_operand_images(word);
    }

    /// The instruction that the tokens denote: the mnemonic of a mode, a
    /// register, a comma, an operand.
    pub open spec fn parse_spec(tokens: Seq<Seq<char>>) -> Result<Mov, ParseInstructionError> {
        let t = lowered_tokens(tokens);
        match count_spec(t.len(), 4) {
            Some(e) => Err(e),
            None => match Mode::named(t[0]) {
                None => Err(ParseInstructionError::BadInstruction),
                Some(mode) => match operands_spec(t, ImmKind::Bits7) {
                    Ok((op1, op2)) => Ok(Mov { op1, op2, mode }),
                    Err(e) => Err(e),
                },
            },
        }
    }

    /// Reads the instruction from its tokens.
    pub fn parse(tokens: &Vec<String>) -> (r: Result<Mov, ParseInstructionError>)
        ensures
            r == Mov::parse_spec(tokens.deep_view()),
            r matches Ok(instr) ==> instr.wf(),
    {
        let t = lower_tokens(tokens);
        if let Some(e) = check_count(t.len(), 4) {
            return Err(e);
        }
        let mode = if spells(&t[0], "mov") {
            Mode::Mov
        } else if spells(&t[0], "neg") {
            Mode::Neg
        } else if spells(&t[0], "not") {
            Mode::Not
        } else {
            return Err(ParseInstructionError::BadInstruction);
        };
        match parse_operands(&t, ImmKind::Bits7) {
            Ok((op1, op2)) => Ok(Mov { op1, op2, mode }),
            Err(e) => Err(e),
        }
    }

    /// The instruction as the assembler writes it.
    pub open spec fn format_spec(self) -> Seq<char> {
        self.mode.name() + " "@ + reg_text(self.op1) + ", "@ + self.op2.text()
    }

    /// Writes the instruction as the assembler does.
    pub fn format(&self) -> (s: String)
        ensures
            s@ == self.format_spec(),
    {
        let mut s = String::from_str(
            match self.mode {
                Mode::Mov => "mov",
                Mode::Neg => "neg",
                Mode::Not => "not",
            },
        );
        s.append(" ");
        push_reg(&mut s, self.op1);
        s.append(", ");
        self.op2.push_text(&mut s);
        s
    }

    /// The state after the instruction: the register holds what the mode
    /// makes of the operand, and no flag is written.
    pub open spec fn apply(self, s: State) -> State {
        s.with_reg(self.op1, self.mode.of(s.value(self.op2)))
    }

    /// Executes the instruction.
    pub fn execute(&self, proc: &mut Processor)
        requires
            self.wf(),
        ensures
            final(proc)@ == self.apply(old(proc)@),
    {
        let b = proc.value(self.op2);
        proof {
            lemma_not(b);
        }
        let res = match self.mode {
            Mode::Mov => b,
            Mode::Neg => 0u16.wrapping_sub(b),
            Mode::Not => !b,
        };
        proc.regs.set(self.op1, res);
    }
}

} // verus!
