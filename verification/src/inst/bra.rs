//! The branches: B and BL, alone or under a condition.

use crate::inst::{DecodeError, ImmKind, Op2, ParseInstructionError};
use crate::inst::layout::{imm_flag, lemma_fields, lemma_rebuild, opcode, opcode_of, pack, word_of};
use crate::inst::operand::lemma_operand_bytes;
use crate::inst::syntax::{check_count, count_spec, lower_tokens, lowered_tokens};
use crate::alu::Flags;
use crate::proc::{Processor, State, LR, PC};
use crate::text::{rows, spells};
use vstd::prelude::*;
use vstd::string::*;

verus! {

/// The condition under which a branch is taken: bits 10-8 of the word.
#[derive(Clone, Copy, Debug, PartialEq, Eq, Structural)]
pub enum Cond {
    /// Always.
    Ra,
    /// Where the last result was zero.
    Eq,
    /// Where it was not zero.
    Ne,
    /// Where it was negative.
    Lt,
    /// Where it was negative or zero.
    Le,
    /// Where it was not negative, or zero.
    Ge,
    /// Where it was neither negative nor zero.
    Gt,
}

impl Cond {
    /// The three bits that encode the condition.
    pub open spec fn code(self) -> u16 {
        match self {
            Cond::Ra => 0,
            Cond::Eq => 1,
            Cond::Ne => 2,
            Cond::Lt => 3,
            Cond::Le => 4,
            Cond::Ge => 5,
            Cond::Gt => 6,
        }
    }

    /// The condition that three bits encode; `111` encodes none.
    pub open spec fn coded(bits: u16) -> Option<Cond> {
        if bits == 0 {
            Some(Cond::Ra)
        } else if bits == 1 {
            Some(Cond::Eq)
        } else if bits == 2 {
            Some(Cond::Ne)
        } else if bits == 3 {
            Some(Cond::Lt)
        } else if bits == 4 {
            Some(Cond::Le)
        } else if bits == 5 {
            Some(Cond::Ge)
        } else if bits == 6 {
            Some(Cond::Gt)
        } else {
            None
        }
    }

    /// The two letters that name the condition.
    pub open spec fn name(self) -> Seq<char> {
        match self {
            Cond::Ra => "ra"@,
            Cond::Eq => "eq"@,
            Cond::Ne => "ne"@,
            Cond::Lt => "lt"@,
            Cond::Le => "le"@,
            Cond::Ge => "ge"@,
            Cond::Gt => "gt"@,
        }
    }

    /// Whether the condition holds under `flags`. Only zero and negative
    /// are read.
    pub open spec fn holds(self, flags: Flags) -> bool {
        match self {
            Cond::Ra => true,
            Cond::Eq => flags.zero,
            Cond::Ne => !flags.zero,
            Cond::Lt => flags.negative,
            Cond::Le => flags.negative || flags.zero,
            Cond::Ge => !flags.negative || flags.zero,
            Cond::Gt => !flags.negative && !flags.zero,
        }
    }

    /// Tests the condition under `flags`.
    pub fn test(&self, flags: Flags) -> (b: bool)
        ensures
            b == self.holds(flags),
    {
        match self {
            Cond::Ra => true,
            Cond::Eq => flags.zero,
            Cond::Ne => !flags.zero,
            Cond::Lt => flags.negative,
            Cond::Le => flags.negative || flags.zero,
            Cond::Ge => !flags.negative || flags.zero,
            Cond::Gt => !flags.negative && !flags.zero,
        }
    }
}

/// The condition and the link flag that a mnemonic names: `b` or `bl`,
/// then nothing or the two letters of a condition.
pub open spec fn named(token: Seq<char>) -> Option<(Cond, bool)> {
    if token == "b"@ {
        Some((Cond::Ra, false))
    } else if token == "bl"@ {
        Some((Cond::Ra, true))
    } else if token == "beq"@ {
        Some((Cond::Eq, false))
    } else if token == "bleq"@ {
        Some((Cond::Eq, true))
    } else if token == "bne"@ {
        Some((Cond::Ne, false))
    } else if token == "blne"@ {
        Some((Cond::Ne, true))
    } else if token == "blt"@ {
        Some((Cond::Lt, false))
    } else if token == "bllt"@ {
        Some((Cond::Lt, true))
    } else if token == "ble"@ {
        Some((Cond::Le, false))
    } else if token == "blle"@ {
        Some((Cond::Le, true))
    } else if token == "bge"@ {
        Some((Cond::Ge, false))
    } else if token == "blge"@ {
        Some((Cond::Ge, true))
    } else if token == "bgt"@ {
        Some((Cond::Gt, false))
    } else if token == "blgt"@ {
        Some((Cond::Gt, true))
    } else {
        None
    }
}

/// Reads the condition and the link flag from a mnemonic.
pub fn mnemonic(token: &Vec<char>) -> (r: Option<(Cond, bool)>)
    ensures
        r == named(token@),
{
    if spells(token, "b") {
        Some((Cond::Ra, false))
    } else if spells(token, "bl") {
        Some((Cond::Ra, true))
    } else if spells(token, "beq") {
        Some((Cond::Eq, false))
    } else if spells(token, "bleq") {
        Some((Cond::Eq, true))
    } else if spells(token, "bne") {
        Some((Cond::Ne, false))
    } else if spells(token, "blne") {
        Some((Cond::Ne, true))
    } else if spells(token, "blt") {
        Some((Cond::Lt, false))
    } else if spells(token, "bllt") {
        Some((Cond::Lt, true))
    } else if spells(token, "ble") {
        Some((Cond::Le, false))
    } else if spells(token, "blle") {
        Some((Cond::Le, true))
    } else if spells(token, "bge") {
        Some((Cond::Ge, false))
    } else if spells(token, "blge") {
        Some((Cond::Ge, true))
    } else if spells(token, "bgt") {
        Some((Cond::Gt, false))
    } else if spells(token, "blgt") {
        Some((Cond::Gt, true))
    } else {
        None
    }
}

/// A branch. Its immediate is a displacement from the program counter,
/// stored as a count of words in seven bits.
#[derive(Clone, Copy, Debug, PartialEq, Eq, Structural)]
pub struct Bra {
    /// Where to go: the word of a register, or a displacement.
    pub op2: Op2,
    /// Whether the program counter is saved in the link register.
    pub link: bool,
    /// When the branch is taken.
    pub cond: Cond,
}

impl Bra {
    /// Whether the register that the instruction names exists.
    pub open spec fn wf(self) -> bool {
        self.op2.wf()
    }

    /// The instruction that `word` encodes: bit 11 is the link flag,
    /// bits 10-8 the condition.
    pub open spec fn decode_spec(word: u16) -> Result<Bra, DecodeError> {
        if opcode(word) != 0xf {
            Err(DecodeError { word })
        } else {
            match Cond::coded(word / 0x100 % 8) {
                Some(cond) => Ok(
                    Bra { op2: Op2::relative(word), link: word / 0x800 % 2 == 1, cond },
                ),
                None => Err(DecodeError { word }),
            }
        }
    }

    /// Decodes `word`, which fails where its opcode is not that of a
    /// branch or its condition is none.
    pub fn decode(word: u16) -> (r: Result<Bra, DecodeError>)
        ensures
            r == Bra::decode_spec(word),
            r matches Ok(instr) ==> instr.wf(),
    {
        if opcode_of(word) != 0xf {
            return Err(DecodeError { word });
        }
        proof {
            lemma_fields(word);
        }
        let bits = (word & 0x0700) >> 8;
        let cond = if bits == 0 {
            Cond::Ra
        } else if bits == 1 {
            Cond::Eq
        } else if bits == 2 {
            Cond::Ne
        } else if bits == 3 {
            Cond::Lt
        } else if bits == 4 {
            Cond::Le
        } else if bits == 5 {
            Cond::Ge
        } else if bits == 6 {
            Cond::Gt
        } else {
            return Err(DecodeError { word });
        };
        Ok(Bra { op2: Op2::decode_relative(word), link: word & 0x0800 != 0, cond })
    }

    /// The second nibble of the word that encodes the instruction: the
    /// link flag above the condition.
    pub open spec fn flags_nibble(self) -> u16 {
        if self.link {
            (8 + self.cond.code()) as u16
        } else {
            self.cond.code()
        }
    }

    /// The word that encodes the instruction.
    pub open spec fn encode_spec(self) -> u16 {
        word_of(0xf, self.flags_nibble(), self.op2.relative_byte())
    }

    /// Encodes the instruction.
    pub fn encode(&self) -> (word: u16)
        ensures
            word == self.encode_spec(),
    {
        let cond: u16 = match self.cond {
            Cond::Ra => 0,
            Cond::Eq => 1,
            Cond::Ne => 2,
            Cond::Lt => 3,
            Cond::Le => 4,
            Cond::Ge => 5,
            Cond::Gt => 6,
        };
        let nibble: u16 = if self.link {
            8 + cond
        } else {
            cond
        };
        pack(0xf, nibble, self.op2.encode_relative())
    }

    /// `word` with the bits cleared that a branch does not read: bits
    /// 6-4 where the target is a register.
    pub open spec fn canonical(word: u16) -> u16 {
        if imm_flag(word) {
            word
        } else {
            word & 0xff8f
        }
    }

    /// Decoding a word and encoding the result gives the word back, but
    /// for the bits that a branch does not read.
    pub proof fn lemma_round_trip(word: u16)
        requires
            Bra::decode_spec(word) is Ok,
        ensures
            Bra::decode_spec(word).unwrap().encode_spec() == Bra::canonical(word),
    {
        lemma_operand_bytes(word);
        lemma_rebuild(word);
        let instr = Bra::decode_spec(word).unwrap();
        assert(instr.cond.code() == word / 0x100 % 8);
        assert(instr.flags_nibble() == crate::inst::layout::dst(word));
    }

    /// Whether the instruction is one that decoding yields.
    pub open spec fn decoded(self) -> bool {
        self.op2.is_relative()
    }

    /// An instruction that decoding yields is decoded back from the word
    /// that encodes it.
    pub proof fn lemma_decode_encode(self)
        requires
            self.decoded(),
        ensures
            Bra::decode_spec(self.encode_spec()) == Ok::<Bra, DecodeError>(self),
    {
        let word = self.encode_spec();
        crate::inst::layout::lemma_word_fields(0xf, self.flags_nibble(), self.op2.relative_byte());
        self.op2.lemma_operand_images(word);
    }

    /// The instruction that the tokens denote: the mnemonic of a branch
    /// and its target.
    pub open spec fn parse_spec(tokens: Seq<Seq<char>>) -> Result<Bra, ParseInstructionError> {
        let t = lowered_tokens(tokens);
        match count_spec(t.len(), 2) {
            Some(e) => Err(e),
            None => match named(t[0]) {
                None => Err(ParseInstructionError::BadInstruction),
                Some((cond, link)) => match Op2::parse_spec(t[1]) {
                    None => Err(ParseInstructionError::InvalidOp),
                    Some(op2) => if op2.fits(ImmKind::Relative) {
                        Ok(Bra { op2, link, cond })
                    } else {
                        Err(ParseInstructionError::InvalidOp)
                    },
                },
            },
        }
    }

    /// Reads the instruction from its tokens.
    pub fn parse(tokens: &Vec<String>) -> (r: Result<Bra, ParseInstructionError>)
        ensures
            r == Bra::parse_spec(tokens.deep_view()),
            r matches Ok(instr) ==> instr.wf(),
    {
        let t = lower_tokens(tokens);
        if let Some(e) = check_count(t.len(), 2) {
            return Err(e);
        }
        assert(rows(t@)[0] == t@[0]@ && rows(t@)[1] == t@[1]@);
        let (cond, link) = match mnemonic(&t[0]) {
            Some(pair) => pair,
            None => {
                return Err(ParseInstructionError::BadInstruction);
            },
        };
        match Op2::of_chars(&t[1]) {
            None => Err(ParseInstructionError::InvalidOp),
            Some(op2) => if op2.check(ImmKind::Relative) {
                Ok(Bra { op2, link, cond })
            } else {
                Err(ParseInstructionError::InvalidOp)
            },
        }
    }

    /// The mnemonic as the assembler writes it: `b`, `l` where the
    /// branch links, and the two letters of the condition.
    pub open spec fn label(self) -> Seq<char> {
        (if self.link {
            "bl"@
        } else {
            "b"@
        }) + self.cond.name()
    }

    /// The instruction as the assembler writes it.
    pub open spec fn format_spec(self) -> Seq<char> {
        self.label() + " "@ + self.op2.address_text()
    }

    /// Writes the instruction as the assembler does.
    pub fn format(&self) -> (s: String)
        ensures
            s@ == self.format_spec(),
    {
        let mut s = String::from_str(
            if self.link {
                "bl"
            } else {
                "b"
            },
        );
        s.append(
            match self.cond {
                Cond::Ra => "ra",
                Cond::Eq => "eq",
                Cond::Ne => "ne",
                Cond::Lt => "lt",
                Cond::Le => "le",
                Cond::Ge => "ge",
                Cond::Gt => "gt",
            },
        );
        s.append(" ");
        self.op2.push_address_text(&mut s);
        s
    }

    /// The state after the instruction. Where the condition holds, the
    /// program counter is saved in the link register if the branch
    /// links, and then set to the target; else nothing is changed.
    pub open spec fn apply(self, s: State) -> State {
        if self.cond.holds(s.flags()) {
            let target = s.address(self.op2);
            let saved = if self.link {
                s.with_reg(LR, s.reg(PC))
            } else {
                s
            };
            saved.with_reg(PC, target)
        } else {
            s
        }
    }

    /// Executes the instruction.
    pub fn execute(&self, proc: &mut Processor)
        requires
            self.wf(),
        ensures
            final(proc)@ == self.apply(old(proc)@),
    {
        let target = proc.address(self.op2);
        if self.cond.test(proc.condition()) {
            if self.link {
                let pc = proc.regs.get(PC);
                proc.regs.set(LR, pc);
            }
            proc.regs.set(PC, target);
        }
    }
}

} // verus!
