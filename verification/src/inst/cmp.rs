//! CMP, CMN, TST and TEQ: compare a register with the second operand and
//! keep only the flags.

use crate::inst::{DecodeError, ImmKind, Op2, ParseInstructionError};
use crate::inst::layout::{dst, dst_of, imm_flag, lemma_rebuild, opcode_of, pack, word_of};
use crate::inst::operand::{lemma_operand_bytes, push_reg, reg_text};
use crate::inst::syntax::{
    check_count, count_spec, lower_tokens, lowered_tokens, operands_spec, parse_operands,
};
use crate::alu::{add_spec, add_words, arith_flags, flags_of, sub_spec, sub_words, Flags};
use crate::proc::{Processor, State};
use crate::text::spells;
use vstd::prelude::*;
use vstd::string::*;

verus! {

/// How the operands are compared: bits 13-12 of the word.
#[derive(Clone, Copy, Debug, PartialEq, Eq, Structural)]
pub enum Mode {
    /// By their difference.
    Cmp,
    /// By their sum.
    Cmn,
    /// By their bitwise and.
    Tst,
    /// By their bitwise exclusive or.
    Teq,
}

impl Mode {
    /// The two bits that encode the mode.
    pub open spec fn code(self) -> u16 {
        match self {
            Mode::Cmp => 0,
            Mode::Cmn => 1,
            Mode::Tst => 2,
            Mode::Teq => 3,
        }
    }

    /// The mnemonic of the mode.
    pub open spec fn name(self) -> Seq<char> {
        match self {
            Mode::Cmp => "cmp"@,
            Mode::Cmn => "cmn"@,
            Mode::Tst => "tst"@,
            Mode::Teq => "teq"@,
        }
    }

    /// The mode that a mnemonic names.
    pub open spec fn named(token: Seq<char>) -> Option<Mode> {
        if token == "cmp"@ {
            Some(Mode::Cmp)
        } else if token == "cmn"@ {
            Some(Mode::Cmn)
        } else if token == "tst"@ {
            Some(Mode::Tst)
        } else if token == "teq"@ {
            Some(Mode::Teq)
        } else {
            None
        }
    }
}

/// A CMP, CMN, TST or TEQ instruction. Its immediate is seven bits,
/// signed.
#[derive(Clone, Copy, Debug, PartialEq, Eq, Structural)]
pub struct Cmp {
    /// The register that is compared.
    pub op1: u16,
    /// What it is compared with.
    pub op2: Op2,
    /// How the two are compared.
    pub mode: Mode,
}

impl Cmp {
    /// Whether the registers that the instruction names exist.
    pub open spec fn wf(self) -> bool {
        self.op1 < 16 && self.op2.wf()
    }

    /// The instruction that `word` encodes: bits 15-14 are `00`, and
    /// bits 13-12 are the mode.
    pub open spec fn decode_spec(word: u16) -> Result<Cmp, DecodeError> {
        if word / 0x4000 == 0 {
            Ok(
                Cmp {
                    op1: dst(word),
                    op2: Op2::signed7(word),
                    mode: if word / 0x1000 % 4 == 0 {
                        Mode::Cmp
                    } else if word / 0x1000 % 4 == 1 {
                        Mode::Cmn
                    } else if word / 0x1000 % 4 == 2 {
                        Mode::Tst
                    } else {
                        Mode::Teq
                    },
                },
            )
        } else {
            Err(DecodeError { word })
        }
    }

    /// Decodes `word`, which fails where its opcode is not that of CMP.
    pub fn decode(word: u16) -> (r: Result<Cmp, DecodeError>)
        ensures
            r == Cmp::decode_spec(word),
            r matches Ok(instr) ==> instr.wf(),
    {
        let op = opcode_of(word);
        let mode = if op == 0 {
            Mode::Cmp
        } else if op == 1 {
            Mode::Cmn
        } else if op == 2 {
            Mode::Tst
        } else if op == 3 {
            Mode::Teq
        } else {
            return Err(DecodeError { word });
        };
        Ok(Cmp { op1: dst_of(word), op2: Op2::decode_signed7(word), mode })
    }

    /// The word that encodes the instruction.
    pub open spec fn encode_spec(self) -> u16 {
        word_of(self.mode.code(), self.op1, self.op2.low_byte())
    }

    /// Encodes the instruction.
    pub fn encode(&self) -> (word: u16)
        ensures
            word == self.encode_spec(),
    {
        let op: u16 = match self.mode {
            Mode::Cmp => 0,
            Mode::Cmn => 1,
            Mode::Tst => 2,
            Mode::Teq => 3,
        };
        pack(op, self.op1, self.op2.encode_low())
    }

    /// `word` with the bits cleared that CMP does not read: bits 6-4
    /// where the second operand is a register.
    pub open spec fn canonical(word: u16) -> u16 {
        if imm_flag(word) {
            word
        } else {
            word & 0xff8f
        }
    }

    /// Decoding a word and encoding the result gives the word back, but
    /// for the bits that CMP does not read.
    pub proof fn lemma_round_trip(word: u16)
        requires
            word / 0x4000 == 0,
        ensures
            Cmp::decode_spec(word) is Ok,
            Cmp::decode_spec(word).unwrap().encode_spec() == Cmp::canonical(word),
    {
        lemma_operand_bytes(word);
        lemma_rebuild(word);
    }

    /// Whether the instruction is one that decoding yields.
    pub open spec fn decoded(self) -> bool {
        self.op1 < 16 && self.op2.is_signed7()
    }

    /// An instruction that decoding yields is decoded back from the word
    /// that encodes it.
    pub proof fn lemma_decode_encode(self)
        requires
            self.decoded(),
        ensures
            Cmp::decode_spec(self.encode_spec()) == Ok::<Cmp, DecodeError>(self),
    {
        let word = self.encode_spec();
        crate::inst::layout::lemma_word_fields(self.mode.code(), self.op1, self.op2.low_byte());
        self.op2.lemma_operand_images(word);
    }

    /// The instruction that the tokens denote: the mnemonic of a mode, a
    /// register, a comma, an operand.
    pub open spec fn parse_spec(tokens: Seq<Seq<char>>) -> Result<Cmp, ParseInstructionError> {
        let t = lowered_tokens(tokens);
        match count_spec(t.len(), 4) {
            Some(e) => Err(e),
            None => match Mode::named(t[0]) {
                None => Err(ParseInstructionError::BadInstruction),
                Some(mode) => match operands_spec(t, ImmKind::Bits7) {
                    Ok((op1, op2)) => Ok(Cmp { op1, op2, mode }),
                    Err(e) => Err(e),
                },
            },
        }
    }

    /// Reads the instruction from its tokens.
    pub fn parse(tokens: &Vec<String>) -> (r: Result<Cmp, ParseInstructionError>)
        ensures
            r == Cmp::parse_spec(tokens.deep_view()),
            r matches Ok(instr) ==> instr.wf(),
    {
        let t = lower_tokens(tokens);
        if let Some(e) = check_count(t.len(), 4) {
            return Err(e);
        }
        let mode = if spells(&t[0], "cmp") {
            Mode::Cmp
        } else if spells(&t[0], "cmn") {
            Mode::Cmn
        } else if spells(&t[0], "tst") {
            Mode::Tst
        } else if spells(&t[0], "teq") {
            Mode::Teq
        } else {
            return Err(ParseInstructionError::BadInstruction);
        };
        match parse_operands(&t, ImmKind::Bits7) {
            Ok((op1, op2)) => Ok(Cmp { op1, op2, mode }),
            Err(e) => Err(e),
        }
    }

    /// The instruction as the assembler writes it.
    pub open spec fn format_spec(self) -> Seq<char> {
        self.mode.name() + " "@ + reg_text(self.op1) + ", "@ + self.op2.text()
    }

    /// Writes the instruction as the assembler does.
    pub fn format(&self) -> (s: String)
        ensures
            s@ == self.format_spec(),
    {
        let mut s = String::from_str(
            match self.mode {
                Mode::Cmp => "cmp",
                Mode::Cmn => "cmn",
                Mode::Tst => "tst",
                Mode::Teq => "teq",
            },
        );
        s.append(" ");
        push_reg(&mut s, self.op1);
        s.append(", ");
        self.op2.push_text(&mut s);
        s
    }

    /// The flags of comparing `a` with `b`: those of the difference or
    /// the sum, or zero and negative of the bitwise result with overflow
    /// and carry clear.
    pub open spec fn compare(self, a: u16, b: u16) -> Flags {
        match self.mode {
            Mode::Cmp => arith_flags(sub_spec(a, b).0, a, b, sub_spec(a, b).1),
            Mode::Cmn => arith_flags(add_spec(a, b).0, a, b, add_spec(a, b).1),
            Mode::Tst => Flags {
                zero: a & b == 0,
                negative: a & b >= 0x8000,
                overflow: false,
                carry: false,
            },
            Mode::Teq => Flags {
                zero: a ^ b == 0,
                negative: a ^ b >= 0x8000,
                overflow: false,
                carry: false,
            },
        }
    }

    /// The state after the instruction: all four flags are written, and
    /// nothing else.
    pub open spec fn apply(self, s: State) -> State {
        s.with_flags(self.compare(s.reg(self.op1), s.value(self.op2)))
    }

    /// Executes the instruction.
    pub fn execute(&self, proc: &mut Processor)
        requires
            self.wf(),
        ensures
            final(proc)@ == self.apply(old(proc)@),
    {
        let a = proc.regs.get(self.op1);
        let b = proc.value(self.op2);
        let flags = match self.mode {
            Mode::Cmp => {
                let (res, carry) = sub_words(a, b);
                flags_of(res, a, b, carry)
            },
            Mode::Cmn => {
                let (res, carry) = add_words(a, b);
                flags_of(res, a, b, carry)
            },
            Mode::Tst => {
                let res = a & b;
                Flags { zero: res == 0, negative: res >= 0x8000, overflow: false, carry: false }
            },
            Mode::Teq => {
                let res = a ^ b;
                Flags { zero: res == 0, negative: res >= 0x8000, overflow: false, carry: false }
            },
        };
        proc.set_condition(flags);
    }
}

} // verus!
