//! The instruction codec: the bit layout of every instruction family, the
//! textual syntax of the assembler, and the dispatch over the closed set of
//! instructions.

use crate::proc::{Fault, Processor, State};
use crate::text::{chars_of, spells};
use vstd::prelude::*;
use vstd::string::*;

pub mod add;
pub mod and;
pub mod bra;
pub mod cmp;
pub mod layout;
pub mod ldr;
pub mod mov;
pub mod mul;
pub mod operand;
pub mod orr;
pub mod shf;
pub mod str;
pub mod sub;
pub mod syntax;
pub mod xor;

use self::add::Add;
use self::and::And;
use self::bra::Bra;
use self::cmp::Cmp;
use self::layout::{imm_flag, lemma_rebuild, lemma_word_fields, opcode, opcode_of};
use self::ldr::Ldr;
use self::mov::Mov;
use self::mul::Mul;
use self::orr::Orr;
use self::shf::Shf;
use self::str::Str;
use self::sub::Sub;
pub use self::operand::{ImmKind, Op2};
use self::xor::Xor;

verus! {

/// A word that is no instruction: its opcode or its mode field is not one
/// that the machine knows.
#[derive(Clone, Copy, Debug, PartialEq, Eq, Structural)]
pub struct DecodeError {
    /// The word that could not be decoded.
    pub word: u16,
}

/// Why a sequence of tokens is not an instruction.
#[derive(Clone, Copy, Debug, PartialEq, Eq, Structural)]
pub enum ParseInstructionError {
    /// There are no tokens at all.
    EmptyStr,
    /// There are too few operands.
    MissingOps,
    /// There are too many operands.
    ExtraOps,
    /// The mnemonic is not one of this instruction's.
    BadInstruction,
    /// The operands are not separated by a comma.
    ExpectedSep,
    /// An operand is malformed or out of its range.
    InvalidOp,
    /// The mnemonic is not one of any instruction's.
    UnknownInstruction,
}

impl ParseInstructionError {
    /// The text of the error, as shown to the user.
    pub open spec fn message_spec(self) -> Seq<char> {
        match self {
            ParseInstructionError::EmptyStr => "Could not parse instruction from empty string"@,
            ParseInstructionError::MissingOps => "Missing operands"@,
            ParseInstructionError::ExtraOps => "Extra operands"@,
            ParseInstructionError::BadInstruction => "Bad instruction name"@,
            ParseInstructionError::ExpectedSep => "Expected separator between operands"@,
            ParseInstructionError::InvalidOp => "Invalid operand"@,
            ParseInstructionError::UnknownInstruction => "Unknown instruction"@,
        }
    }

    /// The text of the error, as shown to the user.
    pub fn message(&self) -> (s: String)
        ensures
            s@ == self.message_spec(),
    {
        String::from_str(
            match self {
                ParseInstructionError::EmptyStr => "Could not parse instruction from empty string",
                ParseInstructionError::MissingOps => "Missing operands",
                ParseInstructionError::ExtraOps => "Extra operands",
                ParseInstructionError::BadInstruction => "Bad instruction name",
                ParseInstructionError::ExpectedSep => "Expected separator between operands",
                ParseInstructionError::InvalidOp => "Invalid operand",
                ParseInstructionError::UnknownInstruction => "Unknown instruction",
            },
        )
    }
}

/// The twelve families of instructions.
#[derive(Clone, Copy, Debug, PartialEq, Eq, Structural)]
pub enum Family {
    /// `add`.
    Add,
    /// `and`.
    And,
    /// The branches.
    Bra,
    /// `cmp`, `cmn`, `tst`, `teq`.
    Cmp,
    /// `ldr`, `pop`.
    Ldr,
    /// `mov`, `neg`, `not`.
    Mov,
    /// `mul`.
    Mul,
    /// `orr`.
    Orr,
    /// The shifts and rotations.
    Shf,
    /// `str`, `push`.
    Str,
    /// `sub`, `rsb`.
    Sub,
    /// `xor`.
    Xor,
}

/// The family that a mnemonic belongs to.
pub open spec fn family_of(token: Seq<char>) -> Option<Family> {
    if token == "add"@ {
        Some(Family::Add)
    } else if token == "and"@ {
        Some(Family::And)
    } else if bra::named(token) is Some {
        Some(Family::Bra)
    } else if cmp::Mode::named(token) is Some {
        Some(Family::Cmp)
    } else if ldr::Mode::named(token) is Some {
        Some(Family::Ldr)
    } else if mov::Mode::named(token) is Some {
        Some(Family::Mov)
    } else if token == "mul"@ {
        Some(Family::Mul)
    } else if token == "orr"@ {
        Some(Family::Orr)
    } else if shf::Mode::named(token) is Some {
        Some(Family::Shf)
    } else if str::Mode::named(token) is Some {
        Some(Family::Str)
    } else if sub::Mode::named(token) is Some {
        Some(Family::Sub)
    } else if token == "xor"@ {
        Some(Family::Xor)
    } else {
        None
    }
}

/// Tells the family that a mnemonic belongs to.
pub fn family(token: &Vec<char>) -> (r: Option<Family>)
    ensures
        r == family_of(token@),
{
    if spells(token, "add") {
        Some(Family::Add)
    } else if spells(token, "and") {
        Some(Family::And)
    } else if bra::mnemonic(token).is_some() {
        Some(Family::Bra)
    } else if spells(token, "cmp") || spells(token, "cmn") || spells(token, "tst") || spells(
        token,
        "teq",
    ) {
        Some(Family::Cmp)
    } else if spells(token, "ldr") || spells(token, "pop") {
        Some(Family::Ldr)
    } else if spells(token, "mov") || spells(token, "neg") || spells(token, "not") {
        Some(Family::Mov)
    } else if spells(token, "mul") {
        Some(Family::Mul)
    } else if spells(token, "orr") {
        Some(Family::Orr)
    } else if spells(token, "lsr") || spells(token, "asr") || spells(token, "ror") || spells(
        token,
        "lsl",
    ) || spells(token, "asl") || spells(token, "rol") {
        Some(Family::Shf)
    } else if spells(token, "str") || spells(token, "push") {
        Some(Family::Str)
    } else if spells(token, "sub") || spells(token, "rsb") {
        Some(Family::Sub)
    } else if spells(token, "xor") {
        Some(Family::Xor)
    } else {
        None
    }
}

/// An instruction of the machine, of one of its twelve families.
#[derive(Clone, Copy, Debug, PartialEq, Eq, Structural)]
pub enum Instruction {
    /// Opcode `1100`.
    Add(Add),
    /// Opcode `0110`.
    And(And),
    /// Opcode `1111`.
    Bra(Bra),
    /// Opcodes `0000` to `0011`.
    Cmp(Cmp),
    /// Opcode `1011`.
    Ldr(Ldr),
    /// Opcode `1010`.
    Mov(Mov),
    /// Opcode `0111`.
    Mul(Mul),
    /// Opcode `0100`.
    Orr(Orr),
    /// Opcode `1110`.
    Shf(Shf),
    /// Opcode `1101`.
    Str(Str),
    /// Opcodes `1000` and `1001`.
    Sub(Sub),
    /// Opcode `0101`.
    Xor(Xor),
}

impl Instruction {
    /// Whether the registers that the instruction names exist.
    pub open spec fn wf(self) -> bool {
        match self {
            Instruction::Add(i) => i.wf(),
            Instruction::And(i) => i.wf(),
            Instruction::Bra(i) => i.wf(),
            Instruction::Cmp(i) => i.wf(),
            Instruction::Ldr(i) => i.wf(),
            Instruction::Mov(i) => i.wf(),
            Instruction::Mul(i) => i.wf(),
            Instruction::Orr(i) => i.wf(),
            Instruction::Shf(i) => i.wf(),
            Instruction::Str(i) => i.wf(),
            Instruction::Sub(i) => i.wf(),
            Instruction::Xor(i) => i.wf(),
        }
    }

    /// The instruction that `word` encodes: the opcode selects the
    /// family, which decodes the rest.
    pub open spec fn decode_spec(word: u16) -> Result<Instruction, DecodeError> {
        if opcode(word) < 0x4 {
            match Cmp::decode_spec(word) {
                Ok(i) => Ok(Instruction::Cmp(i)),
                Err(e) => Err(e),
            }
        } else if opcode(word) == 0x4 {
            match Orr::decode_spec(word) {
                Ok(i) => Ok(Instruction::Orr(i)),
                Err(e) => Err(e),
            }
        } else if opcode(word) == 0x5 {
            match Xor::decode_spec(word) {
                Ok(i) => Ok(Instruction::Xor(i)),
                Err(e) => Err(e),
            }
        } else if opcode(word) == 0x6 {
            match And::decode_spec(word) {
                Ok(i) => Ok(Instruction::And(i)),
                Err(e) => Err(e),
            }
        } else if opcode(word) == 0x7 {
            match Mul::decode_spec(word) {
                Ok(i) => Ok(Instruction::Mul(i)),
                Err(e) => Err(e),
            }
        } else if opcode(word) < 0xa {
            match Sub::decode_spec(word) {
                Ok(i) => Ok(Instruction::Sub(i)),
                Err(e) => Err(e),
            }
        } else if opcode(word) == 0xa {
            match Mov::decode_spec(word) {
                Ok(i) => Ok(Instruction::Mov(i)),
                Err(e) => Err(e),
            }
        } else if opcode(word) == 0xb {
            match Ldr::decode_spec(word) {
                Ok(i) => Ok(Instruction::Ldr(i)),
                Err(e) => Err(e),
            }
        } else if opcode(word) == 0xc {
            match Add::decode_spec(word) {
                Ok(i) => Ok(Instruction::Add(i)),
                Err(e) => Err(e),
            }
        } else if opcode(word) == 0xd {
            match Str::decode_spec(word) {
                Ok(i) => Ok(Instruction::Str(i)),
                Err(e) => Err(e),
            }
        } else if opcode(word) == 0xe {
            match Shf::decode_spec(word) {
                Ok(i) => Ok(Instruction::Shf(i)),
                Err(e) => Err(e),
            }
        } else {
            match Bra::decode_spec(word) {
                Ok(i) => Ok(Instruction::Bra(i)),
                Err(e) => Err(e),
            }
        }
    }

    /// Whether `word` encodes an instruction: every opcode is that of a
    /// family, so a word fails only on a mode or a condition that its
    /// family does not have.
    pub open spec fn decodable(word: u16) -> bool {
        if opcode(word) == 0xa {
            imm_flag(word) || word / 0x10 % 4 != 3
        } else if opcode(word) == 0xe {
            word / 0x10 % 8 != 3 && word / 0x10 % 8 != 7
        } else if opcode(word) == 0xf {
            word / 0x100 % 8 != 7
        } else {
            true
        }
    }

    /// The word that encodes the instruction.
    pub open spec fn encode_spec(self) -> u16 {
        match self {
            Instruction::Add(i) => i.encode_spec(),
            Instruction::And(i) => i.encode_spec(),
            Instruction::Bra(i) => i.encode_spec(),
            Instruction::Cmp(i) => i.encode_spec(),
            Instruction::Ldr(i) => i.encode_spec(),
            Instruction::Mov(i) => i.encode_spec(),
            Instruction::Mul(i) => i.encode_spec(),
            Instruction::Orr(i) => i.encode_spec(),
            Instruction::Shf(i) => i.encode_spec(),
            Instruction::Str(i) => i.encode_spec(),
            Instruction::Sub(i) => i.encode_spec(),
            Instruction::Xor(i) => i.encode_spec(),
        }
    }

    /// Encodes the instruction.
    pub fn encode(&self) -> (word: u16)
        ensures
            word == self.encode_spec(),
    {
        match self {
            Instruction::Add(i) => i.encode(),
            Instruction::And(i) => i.encode(),
            Instruction::Bra(i) => i.encode(),
            Instruction::Cmp(i) => i.encode(),
            Instruction::Ldr(i) => i.encode(),
            Instruction::Mov(i) => i.encode(),
            Instruction::Mul(i) => i.encode(),
            Instruction::Orr(i) => i.encode(),
            Instruction::Shf(i) => i.encode(),
            Instruction::Str(i) => i.encode(),
            Instruction::Sub(i) => i.encode(),
            Instruction::Xor(i) => i.encode(),
        }
    }

    /// `word` with the bits cleared that its family does not read.
    pub open spec fn canonical(word: u16) -> u16 {
        if opcode(word) == 0xa {
            Mov::canonical(word)
        } else if opcode(word) == 0xb || opcode(word) == 0xd {
            Ldr::canonical(word)
        } else if opcode(word) == 0xe {
            word
        } else {
            Add::canonical(word)
        }
    }

    /// The round trip of the codec: a word that decodes is encoded back
    /// to itself, but for the bits that its family does not read.
    pub proof fn lemma_round_trip(word: u16)
        ensures
            Instruction::decode_spec(word) is Ok <==> Instruction::decodable(word),
            Instruction::decode_spec(word) matches Ok(instr) ==> instr.encode_spec()
                == Instruction::canonical(word),
    {
        lemma_rebuild(word);
        let op = opcode(word);
        if op < 0x4 {
            Cmp::lemma_round_trip(word);
        } else if op == 0x4 {
            Orr::lemma_round_trip(word);
        } else if op == 0x5 {
            Xor::lemma_round_trip(word);
        } else if op == 0x6 {
            And::lemma_round_trip(word);
        } else if op == 0x7 {
            Mul::lemma_round_trip(word);
        } else if op < 0xa {
            Sub::lemma_round_trip(word);
        } else if op == 0xa {
            if Mov::decode_spec(word) is Ok {
                Mov::lemma_round_trip(word);
            }
        } else if op == 0xb {
            Ldr::lemma_round_trip(word);
        } else if op == 0xc {
            Add::lemma_round_trip(word);
        } else if op == 0xd {
            Str::lemma_round_trip(word);
        } else if op == 0xe {
            if Shf::decode_spec(word) is Ok {
                Shf::lemma_round_trip(word);
            }
        } else {
            if Bra::decode_spec(word) is Ok {
                Bra::lemma_round_trip(word);
            }
        }
    }

    /// Whether the instruction is one that decoding yields: its
    /// registers exist, its immediate fits its field, and nothing is in
    /// it that its word has no place for.
    pub open spec fn decoded(self) -> bool {
        match self {
            Instruction::Add(i) => i.decoded(),
            Instruction::And(i) => i.decoded(),
            Instruction::Bra(i) => i.decoded(),
            Instruction::Cmp(i) => i.decoded(),
            Instruction::Ldr(i) => i.decoded(),
            Instruction::Mov(i) => i.decoded(),
            Instruction::Mul(i) => i.decoded(),
            Instruction::Orr(i) => i.decoded(),
            Instruction::Shf(i) => i.decoded(),
            Instruction::Str(i) => i.decoded(),
            Instruction::Sub(i) => i.decoded(),
            Instruction::Xor(i) => i.decoded(),
        }
    }

    /// The other round trip of the codec: an instruction that decoding
    /// yields is decoded back from the word that encodes it.
    pub proof fn lemma_decode_encode(self)
        requires
            self.decoded(),
        ensures
            Instruction::decode_spec(self.encode_spec()) == Ok::<Instruction, DecodeError>(self),
    {
        match self {
            Instruction::Add(i) => {
                i.lemma_decode_encode();
                lemma_word_fields(0xc, i.op1, i.op2.low_byte());
            },
            Instruction::And(i) => {
                i.lemma_decode_encode();
                lemma_word_fields(0x6, i.op1, i.op2.low_byte());
            },
            Instruction::Bra(i) => {
                i.lemma_decode_encode();
                lemma_word_fields(0xf, i.flags_nibble(), i.op2.relative_byte());
            },
            Instruction::Cmp(i) => {
                i.lemma_decode_encode();
                lemma_word_fields(i.mode.code(), i.op1, i.op2.low_byte());
            },
            Instruction::Ldr(i) => {
                i.lemma_decode_encode();
                lemma_word_fields(0xb, i.op1, i.low_byte());
            },
            Instruction::Mov(i) => {
                i.lemma_decode_encode();
                lemma_word_fields(0xa, i.op1, i.low_byte());
            },
            Instruction::Mul(i) => {
                i.lemma_decode_encode();
                lemma_word_fields(0x7, i.op1, i.op2.low_byte());
            },
            Instruction::Orr(i) => {
                i.lemma_decode_encode();
                lemma_word_fields(0x4, i.op1, i.op2.low_byte());
            },
            Instruction::Shf(i) => {
                i.lemma_decode_encode();
                lemma_word_fields(0xe, i.op1, i.low_byte());
            },
            Instruction::Str(i) => {
                i.lemma_decode_encode();
                lemma_word_fields(0xd, i.op1, i.low_byte());
            },
            Instruction::Sub(i) => {
                i.lemma_decode_encode();
                lemma_word_fields(i.opcode_nibble(), i.op1, i.op2.low_byte());
            },
            Instruction::Xor(i) => {
                i.lemma_decode_encode();
                lemma_word_fields(0x5, i.op1, i.op2.low_byte());
            },
        }
    }

    /// The instruction that the tokens denote: the first token, as it
    /// stands, selects the family, which reads the rest.
    pub open spec fn parse_spec(tokens: Seq<Seq<char>>) -> Result<
        Instruction,
        ParseInstructionError,
    > {
        if tokens.len() == 0 {
            Err(ParseInstructionError::EmptyStr)
        } else {
            match family_of(tokens[0]) {
                None => Err(ParseInstructionError::UnknownInstruction),
                Some(Family::Add) => match Add::parse_spec(tokens) {
                    Ok(i) => Ok(Instruction::Add(i)),
                    Err(e) => Err(e),
                },
                Some(Family::And) => match And::parse_spec(tokens) {
                    Ok(i) => Ok(Instruction::And(i)),
                    Err(e) => Err(e),
                },
                Some(Family::Bra) => match Bra::parse_spec(tokens) {
                    Ok(i) => Ok(Instruction::Bra(i)),
                    Err(e) => Err(e),
                },
                Some(Family::Cmp) => match Cmp::parse_spec(tokens) {
                    Ok(i) => Ok(Instruction::Cmp(i)),
                    Err(e) => Err(e),
                },
                Some(Family::Ldr) => match Ldr::parse_spec(tokens) {
                    Ok(i) => Ok(Instruction::Ldr(i)),
                    Err(e) => Err(e),
                },
                Some(Family::Mov) => match Mov::parse_spec(tokens) {
                    Ok(i) => Ok(Instruction::Mov(i)),
                    Err(e) => Err(e),
                },
                Some(Family::Mul) => match Mul::parse_spec(tokens) {
                    Ok(i) => Ok(Instruction::Mul(i)),
                    Err(e) => Err(e),
                },
                Some(Family::Orr) => match Orr::parse_spec(tokens) {
                    Ok(i) => Ok(Instruction::Orr(i)),
                    Err(e) => Err(e),
                },
                Some(Family::Shf) => match Shf::parse_spec(tokens) {
                    Ok(i) => Ok(Instruction::Shf(i)),
                    Err(e) => Err(e),
                },
                Some(Family::Str) => match Str::parse_spec(tokens) {
                    Ok(i) => Ok(Instruction::Str(i)),
                    Err(e) => Err(e),
                },
                Some(Family::Sub) => match Sub::parse_spec(tokens) {
                    Ok(i) => Ok(Instruction::Sub(i)),
                    Err(e) => Err(e),
                },
                Some(Family::Xor) => match Xor::parse_spec(tokens) {
                    Ok(i) => Ok(Instruction::Xor(i)),
                    Err(e) => Err(e),
                },
            }
        }
    }

    /// The instruction as the assembler writes it.
    pub open spec fn format_spec(self) -> Seq<char> {
        match self {
            Instruction::Add(i) => i.format_spec(),
            Instruction::And(i) => i.format_spec(),
            Instruction::Bra(i) => i.format_spec(),
            Instruction::Cmp(i) => i.format_spec(),
            Instruction::Ldr(i) => i.format_spec(),
            Instruction::Mov(i) => i.format_spec(),
            Instruction::Mul(i) => i.format_spec(),
            Instruction::Orr(i) => i.format_spec(),
            Instruction::Shf(i) => i.format_spec(),
            Instruction::Str(i) => i.format_spec(),
            Instruction::Sub(i) => i.format_spec(),
            Instruction::Xor(i) => i.format_spec(),
        }
    }

    /// Writes the instruction as the assembler does.
    pub fn format(&self) -> (s: String)
        ensures
            s@ == self.format_spec(),
    {
        match self {
            Instruction::Add(i) => i.format(),
            Instruction::And(i) => i.format(),
            Instruction::Bra(i) => i.format(),
            Instruction::Cmp(i) => i.format(),
            Instruction::Ldr(i) => i.format(),
            Instruction::Mov(i) => i.format(),
            Instruction::Mul(i) => i.format(),
            Instruction::Orr(i) => i.format(),
            Instruction::Shf(i) => i.format(),
            Instruction::Str(i) => i.format(),
            Instruction::Sub(i) => i.format(),
            Instruction::Xor(i) => i.format(),
        }
    }

    /// The state after the instruction, or the fault of a load or a
    /// store that cannot reach its word.
    pub open spec fn apply(self, s: State) -> Result<State, Fault> {
        match self {
            Instruction::Add(i) => Ok(i.apply(s)),
            Instruction::And(i) => Ok(i.apply(s)),
            Instruction::Bra(i) => Ok(i.apply(s)),
            Instruction::Cmp(i) => Ok(i.apply(s)),
            Instruction::Ldr(i) => i.apply(s),
            Instruction::Mov(i) => Ok(i.apply(s)),
            Instruction::Mul(i) => Ok(i.apply(s)),
            Instruction::Orr(i) => Ok(i.apply(s)),
            Instruction::Shf(i) => Ok(i.apply(s)),
            Instruction::Str(i) => i.apply(s),
            Instruction::Sub(i) => Ok(i.apply(s)),
            Instruction::Xor(i) => Ok(i.apply(s)),
        }
    }

    /// Executes the instruction. Where it faults nothing is changed.
    pub fn execute(&self, proc: &mut Processor) -> (r: Result<(), Fault>)
        requires
            self.wf(),
        ensures
            match r {
                Ok(()) => self.apply(old(proc)@) == Ok::<State, Fault>(final(proc)@),
                Err(fault) => self.apply(old(proc)@) == Err::<State, Fault>(fault) && final(proc)@
                    == old(proc)@,
            },
    {
        match self {
            Instruction::Add(i) => {
                i.execute(proc);
                Ok(())
            },
            Instruction::And(i) => {
                i.execute(proc);
                Ok(())
            },
            Instruction::Bra(i) => {
                i.execute(proc);
                Ok(())
            },
            Instruction::Cmp(i) => {
                i.execute(proc);
                Ok(())
            },
            Instruction::Ldr(i) => i.execute(proc),
            Instruction::Mov(i) => {
                i.execute(proc);
                Ok(())
            },
            Instruction::Mul(i) => {
                i.execute(proc);
                Ok(())
            },
            Instruction::Orr(i) => {
                i.execute(proc);
                Ok(())
            },
            Instruction::Shf(i) => {
                i.execute(proc);
                Ok(())
            },
            Instruction::Str(i) => i.execute(proc),
            Instruction::Sub(i) => {
                i.execute(proc);
                Ok(())
            },
            Instruction::Xor(i) => {
                i.execute(proc);
                Ok(())
            },
        }
    }

    /// Reads an instruction from its tokens.
    pub fn parse(tokens: &Vec<String>) -> (r: Result<Instruction, ParseInstructionError>)
        ensures
            r == Instruction::parse_spec(tokens.deep_view()),
            r matches Ok(instr) ==> instr.wf(),
    {
        if tokens.len() == 0 {
            return Err(ParseInstructionError::EmptyStr);
        }
        let name = chars_of(tokens[0].as_str());
        assert(tokens.deep_view()[0] == name@);
        match family(&name) {
            None => Err(ParseInstructionError::UnknownInstruction),
            Some(Family::Add) => match Add::parse(tokens) {
                Ok(i) => Ok(Instruction::Add(i)),
                Err(e) => Err(e),
            },
            Some(Family::And) => match And::parse(tokens) {
                Ok(i) => Ok(Instruction::And(i)),
                Err(e) => Err(e),
            },
            Some(Family::Bra) => match Bra::parse(tokens) {
                Ok(i) => Ok(Instruction::Bra(i)),
                Err(e) => Err(e),
            },
            Some(Family::Cmp) => match Cmp::parse(tokens) {
                Ok(i) => Ok(Instruction::Cmp(i)),
                Err(e) => Err(e),
            },
            Some(Family::Ldr) => match Ldr::parse(tokens) {
                Ok(i) => Ok(Instruction::Ldr(i)),
                Err(e) => Err(e),
            },
            Some(Family::Mov) => match Mov::parse(tokens) {
                Ok(i) => Ok(Instruction::Mov(i)),
                Err(e) => Err(e),
            },
            Some(Family::Mul) => match Mul::parse(tokens) {
                Ok(i) => Ok(Instruction::Mul(i)),
                Err(e) => Err(e),
            },
            Some(Family::Orr) => match Orr::parse(tokens) {
                Ok(i) => Ok(Instruction::Orr(i)),
                Err(e) => Err(e),
            },
            Some(Family::Shf) => match Shf::parse(tokens) {
                Ok(i) => Ok(Instruction::Shf(i)),
                Err(e) => Err(e),
            },
            Some(Family::Str) => match Str::parse(tokens) {
                Ok(i) => Ok(Instruction::Str(i)),
                Err(e) => Err(e),
            },
            Some(Family::Sub) => match Sub::parse(tokens) {
                Ok(i) => Ok(Instruction::Sub(i)),
                Err(e) => Err(e),
            },
            Some(Family::Xor) => match Xor::parse(tokens) {
                Ok(i) => Ok(Instruction::Xor(i)),
                Err(e) => Err(e),
            },
        }
    }
}

/// Decodes a word into the instruction that it encodes. That fails on a
/// mode or a condition that the word's family does not have.
pub fn decode(word: u16) -> (r: Result<Instruction, DecodeError>)
    ensures
        r == Instruction::decode_spec(word),
        r matches Ok(instr) ==> instr.wf(),
        r matches Err(e) ==> e.word == word,
{
    let op = opcode_of(word);
    if op < 0x4 {
        match Cmp::decode(word) {
            Ok(i) => Ok(Instruction::Cmp(i)),
            Err(e) => Err(e),
        }
    } else if op == 0x4 {
        match Orr::decode(word) {
            Ok(i) => Ok(Instruction::Orr(i)),
            Err(e) => Err(e),
        }
    } else if op == 0x5 {
        match Xor::decode(word) {
            Ok(i) => Ok(Instruction::Xor(i)),
            Err(e) => Err(e),
        }
    } else if op == 0x6 {
        match And::decode(word) {
            Ok(i) => Ok(Instruction::And(i)),
            Err(e) => Err(e),
        }
    } else if op == 0x7 {
        match Mul::decode(word) {
            Ok(i) => Ok(Instruction::Mul(i)),
            Err(e) => Err(e),
        }
    } else if op < 0xa {
        match Sub::decode(word) {
            Ok(i) => Ok(Instruction::Sub(i)),
            Err(e) => Err(e),
        }
    } else if op == 0xa {
        match Mov::decode(word) {
            Ok(i) => Ok(Instruction::Mov(i)),
            Err(e) => Err(e),
        }
    } else if op == 0xb {
        match Ldr::decode(word) {
            Ok(i) => Ok(Instruction::Ldr(i)),
            Err(e) => Err(e),
        }
    } else if op == 0xc {
        match Add::decode(word) {
            Ok(i) => Ok(Instruction::Add(i)),
            Err(e) => Err(e),
        }
    } else if op == 0xd {
        match Str::decode(word) {
            Ok(i) => Ok(Instruction::Str(i)),
            Err(e) => Err(e),
        }
    } else if op == 0xe {
        match Shf::decode(word) {
            Ok(i) => Ok(Instruction::Shf(i)),
            Err(e) => Err(e),
        }
    } else {
        match Bra::decode(word) {
            Ok(i) => Ok(Instruction::Bra(i)),
            Err(e) => Err(e),
        }
    }
}

/// The word that the tokens of a line assemble to.
pub open spec fn assemble_spec(line: Seq<Seq<char>>) -> Result<u16, ParseInstructionError> {
    match Instruction::parse_spec(line) {
        Ok(instr) => Ok(instr.encode_spec()),
        Err(e) => Err(e),
    }
}

/// Assembles the tokens of one line into the word of its instruction.
pub fn assemble(line: &Vec<String>) -> (r: Result<u16, ParseInstructionError>)
    ensures
        r == assemble_spec(line.deep_view()),
{
    match Instruction::parse(line) {
        Ok(instr) => Ok(instr.encode()),
        Err(e) => Err(e),
    }
}

} // verus!
