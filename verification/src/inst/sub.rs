//! SUB and RSB: subtracts the second operand from a register, or the
//! register from the second operand.

use crate::inst::{DecodeError, ImmKind, Op2, ParseInstructionError};
use crate::inst::layout::{dst, dst_of, imm_flag, lemma_rebuild, opcode_of, pack, word_of};
use crate::inst::operand::{lemma_operand_bytes, push_reg, reg_text};
use crate::inst::syntax::{
    check_count, count_spec, lower_tokens, lowered_tokens, operands_spec, parse_operands,
};
use crate::alu::{arith_flags, flags_of, sub_spec, sub_words};
use crate::proc::{Processor, State};
use crate::text::spells;
use vstd::prelude::*;
use vstd::string::*;

verus! {

/// Which way the subtraction goes: bit 12 of the word.
#[derive(Clone, Copy, Debug, PartialEq, Eq, Structural)]
pub enum Mode {
    /// The register minus the second operand.
    Sub,
    /// The second operand minus the register.
    Rsb,
}

impl Mode {
    /// The bit that encodes the mode.
    pub open spec fn code(self) -> u16 {
        match self {
            Mode::Sub => 0,
            Mode::Rsb => 1,
        }
    }

    /// The mnemonic of the mode.
    pub open spec fn name(self) -> Seq<char> {
        match self {
            Mode::Sub => "sub"@,
            Mode::Rsb => "rsb"@,
        }
    }

    /// The mode that a mnemonic names.
    pub open spec fn named(token: Seq<char>) -> Option<Mode> {
        if token == "sub"@ {
            Some(Mode::Sub)
        } else if token == "rsb"@ {
            Some(Mode::Rsb)
        } else {
            None
        }
    }
}

/// A SUB or RSB instruction. Its immediate is seven bits, unsigned.
#[derive(Clone, Copy, Debug, PartialEq, Eq, Structural)]
pub struct Sub {
    /// The register that is read and then written.
    pub op1: u16,
    /// The other side of the subtraction.
    pub op2: Op2,
    /// Which way the subtraction goes.
    pub mode: Mode,
}

impl Sub {
    /// Whether the registers that the instruction names exist.
    pub open spec fn wf(self) -> bool {
        self.op1 < 16 && self.op2.wf()
    }

    /// The instruction that `word` encodes: bits 15-13 are `100`, and
    /// bit 12 is the mode.
    pub open spec fn decode_spec(word: u16) -> Result<Sub, DecodeError> {
        if word / 0x2000 == 4 {
            Ok(
                Sub {
                    op1: dst(word),
                    op2: Op2::unsigned7(word),
                    mode: if word / 0x1000 % 2 == 0 {
                        Mode::Sub
                    } else {
                        Mode::Rsb
                    },
                },
            )
        } else {
            Err(DecodeError { word })
        }
    }

    /// Decodes `word`, which fails where its opcode is not that of SUB.
    pub fn decode(word: u16) -> (r: Result<Sub, DecodeError>)
        ensures
            r == Sub::decode_spec(word),
            r matches Ok(instr) ==> instr.wf(),
    {
        let op = opcode_of(word);
        if op == 0x8 {
            Ok(Sub { op1: dst_of(word), op2: Op2::decode_unsigned7(word), mode: Mode::Sub })
        } else if op == 0x9 {
            Ok(Sub { op1: dst_of(word), op2: Op2::decode_unsigned7(word), mode: Mode::Rsb })
        } else {
            Err(DecodeError { word })
        }
    }

    /// The word that encodes the instruction.
    pub open spec fn encode_spec(self) -> u16 {
        word_of(self.opcode_nibble(), self.op1, self.op2.low_byte())
    }

    /// Encodes the instruction.
    pub fn encode(&self) -> (word: u16)
        ensures
            word == self.encode_spec(),
    {
        let op: u16 = match self.mode {
            Mode::Sub => 0x8,
            Mode::Rsb => 0x9,
        };
        pack(op, self.op1, self.op2.encode_low())
    }

    /// `word` with the bits cleared that SUB does not read: bits 6-4
    /// where the second operand is a register.
    pub open spec fn canonical(word: u16) -> u16 {
        if imm_flag(word) {
            word
        } else {
            word & 0xff8f
        }
    }

    /// Decoding a word and encoding the result gives the word back, but
    /// for the bits that SUB does not read.
    pub proof fn lemma_round_trip(word: u16)
        requires
            word / 0x2000 == 4,
        ensures
            Sub::decode_spec(word) is Ok,
            Sub::decode_spec(word).unwrap().encode_spec() == Sub::canonical(word),
    {
        lemma_operand_bytes(word);
        lemma_rebuild(word);
    }

    /// The opcode of the instruction: `1000` or `1001`.
    pub open spec fn opcode_nibble(self) -> u16 {
        (0x8 + self.mode.code()) as u16
    }

    /// Whether the instruction is one that decoding yields.
    pub open spec fn decoded(self) -> bool {
        self.op1 < 16 && self.op2.is_unsigned7()
    }

    /// An instruction that decoding yields is decoded back from the word
    /// that encodes it.
    pub proof fn lemma_decode_encode(self)
        requires
            self.decoded(),
        ensures
            Sub::decode_spec(self.encode_spec()) == Ok::<Sub, DecodeError>(self),
    {
        let word = self.encode_spec();
        crate::inst::layout::lemma_word_fields(self.opcode_nibble(), self.op1, self.op2.low_byte());
        self.op2.lemma_operand_images(word);
    }

    /// The instruction that the tokens denote: `sub` or `rsb`, a
    /// register, a comma, an operand.
    pub open spec fn parse_spec(tokens: Seq<Seq<char>>) -> Result<Sub, ParseInstructionError> {
        let t = lowered_tokens(tokens);
        match count_spec(t.len(), 4) {
            Some(e) => Err(e),
            None => match Mode::named(t[0]) {
                None => Err(ParseInstructionError::BadInstruction),
                Some(mode) => match operands_spec(t, ImmKind::Bits7) {
                    Ok((op1, op2)) => Ok(Sub { op1, op2, mode }),
                    Err(e) => Err(e),
                },
            },
        }
    }

    /// Reads the instruction from its tokens.
    pub fn parse(tokens: &Vec<String>) -> (r: Result<Sub, ParseInstructionError>)
        ensures
            r == Sub::parse_spec(tokens.deep_view()),
            r matches Ok(instr) ==> instr.wf(),
    {
        let t = lower_tokens(tokens);
        if let Some(e) = check_count(t.len(), 4) {
            return Err(e);
        }
        let mode = if spells(&t[0], "sub") {
            Mode::Sub
        } else if spells(&t[0], "rsb") {
            Mode::Rsb
        } else {
            return Err(ParseInstructionError::BadInstruction);
        };
        match parse_operands(&t, ImmKind::Bits7) {
            Ok((op1, op2)) => Ok(Sub { op1, op2, mode }),
            Err(e) => Err(e),
        }
    }

    /// The instruction as the assembler writes it.
    pub open spec fn format_spec(self) -> Seq<char> {
        self.mode.name() + " "@ + reg_text(self.op1) + ", "@ + self.op2.text()
    }

    /// Writes the instruction as the assembler does.
    pub fn format(&self) -> (s: String)
        ensures
            s@ == self.format_spec(),
    {
        let mut s = String::from_str(
            match self.mode {
                Mode::Sub => "sub",
                Mode::Rsb => "rsb",
            },
        );
        s.append(" ");
        push_reg(&mut s, self.op1);
        s.append(", ");
        self.op2.push_text(&mut s);
        s
    }

    /// The two sides of the subtraction in the state `s`: what is
    /// subtracted from, then what is subtracted.
    pub open spec fn sides(self, s: State) -> (u16, u16) {
        match self.mode {
            Mode::Sub => (s.reg(self.op1), s.value(self.op2)),
            Mode::Rsb => (s.value(self.op2), s.reg(self.op1)),
        }
    }

    /// The state after the instruction: the register holds the
    /// difference, and all four flags are written.
    pub open spec fn apply(self, s: State) -> State {
        let (a, b) = self.sides(s);
        let (res, carry) = sub_spec(a, b);
        s.with_flags(arith_flags(res, a, b, carry)).with_reg(self.op1, res)
    }

    /// Executes the instruction.
    pub fn execute(&self, proc: &mut Processor)
        requires
            self.wf(),
        ensures
            final(proc)@ == self.apply(old(proc)@),
    {
        let x = proc.regs.get(self.op1);
        let y = proc.value(self.op2);
        let (a, b) = match self.mode {
            Mode::Sub => (x, y),
            Mode::Rsb => (y, x),
        };
        let (res, carry) = sub_words(a, b);
        proc.set_condition(flags_of(res, a, b, carry));
        proc.regs.set(self.op1, res);
    }
}

} // verus!
