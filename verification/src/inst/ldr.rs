//! LDR and POP: reads a word of memory into a register.

use crate::inst::{DecodeError, Op2, ParseInstructionError};
use crate::inst::layout::{
    dst, dst_of, imm_flag, lemma_fields, lemma_rebuild, low4, low7, opcode, opcode_of, pack,
    word_of,
};
use crate::inst::operand::{lemma_operand_bytes, push_reg, reg_text};
use crate::inst::syntax::{
    address_spec, count_spec, first_reg_spec, lower_tokens, lowered_tokens, parse_address,
    parse_first_reg,
};
use crate::proc::{Fault, Processor, State, SP};
use crate::ram::load_word;
use crate::text::spells;
use vstd::prelude::*;
use vstd::string::*;

verus! {

/// Where the word is read: bits 7-6 of the word are `01` for the
/// stack, and anything else for an address.
#[derive(Clone, Copy, Debug, PartialEq, Eq, Structural)]
pub enum Mode {
    /// At an address.
    Ldr,
    /// At the stack pointer, which then moves up.
    Pop,
}

impl Mode {
    /// The mnemonic of the mode.
    pub open spec fn name(self) -> Seq<char> {
        match self {
            Mode::Ldr => "ldr"@,
            Mode::Pop => "pop"@,
        }
    }

    /// The mode that a mnemonic names.
    pub open spec fn named(token: Seq<char>) -> Option<Mode> {
        if token == "ldr"@ {
            Some(Mode::Ldr)
        } else if token == "pop"@ {
            Some(Mode::Pop)
        } else {
            None
        }
    }

    /// How many tokens an instruction of the mode has.
    pub open spec fn arity(self) -> nat {
        match self {
            Mode::Ldr => 4,
            Mode::Pop => 2,
        }
    }
}

/// An LDR or POP instruction. Its immediate is a displacement from
/// the program counter, stored as a count of words in seven bits.
#[derive(Clone, Copy, Debug, PartialEq, Eq, Structural)]
pub struct Ldr {
    /// The register that is written.
    pub op1: u16,
    /// The address of the word. The stack mode does not read it.
    pub op2: Op2,
    /// Where the word is read.
    pub mode: Mode,
}

impl Ldr {
    /// The instruction that pops into register `reg`.
    pub open spec fn pop(reg: u16) -> Ldr {
        Ldr { op1: reg, op2: Op2::Reg(0), mode: Mode::Pop }
    }

    /// Whether the registers that the instruction names exist.
    pub open spec fn wf(self) -> bool {
        self.op1 < 16 && self.op2.wf()
    }

    /// The instruction that `word` encodes.
    pub open spec fn decode_spec(word: u16) -> Result<Ldr, DecodeError> {
        if opcode(word) == 0xb {
            Ok(
                Ldr {
                    op1: dst(word),
                    op2: Op2::relative(word),
                    mode: if word / 0x40 % 4 == 1 {
                        Mode::Pop
                    } else {
                        Mode::Ldr
                    },
                },
            )
        } else {
            Err(DecodeError { word })
        }
    }

    /// Decodes `word`, which fails where its opcode is not that of LDR.
    pub fn decode(word: u16) -> (r: Result<Ldr, DecodeError>)
        ensures
            r == Ldr::decode_spec(word),
            r matches Ok(instr) ==> instr.wf(),
    {
        if opcode_of(word) != 0xb {
            return Err(DecodeError { word });
        }
        proof {
            lemma_fields(word);
        }
        let mode = if (word ^ 0x0040) & 0x00c0 == 0 {
            Mode::Pop
        } else {
            Mode::Ldr
        };
        Ok(Ldr { op1: dst_of(word), op2: Op2::decode_relative(word), mode })
    }

    /// The low byte of the word that encodes the instruction: the stack
    /// mode is `0x40` in place of a register.
    pub open spec fn low_byte(self) -> u16 {
        match self.op2 {
            Op2::Reg(r) => match self.mode {
                Mode::Ldr => r % 0x10,
                Mode::Pop => 0x40,
            },
            Op2::Imm(_) => self.op2.relative_byte(),
        }
    }

    /// The word that encodes the instruction.
    pub open spec fn encode_spec(self) -> u16 {
        word_of(0xb, self.op1, self.low_byte())
    }

    /// Encodes the instruction.
    pub fn encode(&self) -> (word: u16)
        ensures
            word == self.encode_spec(),
    {
        let low: u16 = match self.op2 {
            Op2::Reg(r) => match self.mode {
                Mode::Ldr => r % 0x10,
                Mode::Pop => 0x40,
            },
            Op2::Imm(_) => self.op2.encode_relative(),
        };
        pack(0xb, self.op1, low)
    }

    /// `word` with the bits cleared that LDR does not read: bits 5-0 in
    /// the stack mode, bits 5-4 with a register.
    pub open spec fn canonical(word: u16) -> u16 {
        if imm_flag(word) {
            word
        } else if word / 0x40 % 4 == 1 {
            word & 0xffc0
        } else {
            word & 0xffcf
        }
    }

    /// Decoding a word and encoding the result gives the word back, but
    /// for the bits that LDR does not read.
    pub proof fn lemma_round_trip(word: u16)
        requires
            opcode(word) == 0xb,
        ensures
            Ldr::decode_spec(word) is Ok,
            Ldr::decode_spec(word).unwrap().encode_spec() == Ldr::canonical(word),
    {
        lemma_operand_bytes(word);
        lemma_rebuild(word);
        let instr = Ldr::decode_spec(word).unwrap();
        if imm_flag(word) {
            assert(instr.low_byte() == (0x80 + low7(word)) as u16);
        } else if word / 0x40 % 4 == 1 {
            assert(instr.low_byte() == 0x40);
        } else {
            assert(instr.op2.relative_byte() == low4(word));
            assert(instr.low_byte() == low4(word));
        }
    }

    /// Whether the instruction is one that decoding yields: the stack
    /// mode has no operand.
    pub open spec fn decoded(self) -> bool {
        self.op1 < 16 && match self.mode {
            Mode::Ldr => self.op2.is_relative(),
            Mode::Pop => self.op2 == Op2::Reg(0),
        }
    }

    /// An instruction that decoding yields is decoded back from the word
    /// that encodes it.
    pub proof fn lemma_decode_encode(self)
        requires
            self.decoded(),
        ensures
            Ldr::decode_spec(self.encode_spec()) == Ok::<Ldr, DecodeError>(self),
    {
        let word = self.encode_spec();
        crate::inst::layout::lemma_word_fields(0xb, self.op1, self.low_byte());
        self.op2.lemma_operand_images(word);
    }

    /// The instruction that the tokens denote: `ldr`, a register, a comma
    /// and an address; or `pop` and a register.
    pub open spec fn parse_spec(tokens: Seq<Seq<char>>) -> Result<Ldr, ParseInstructionError> {
        let t = lowered_tokens(tokens);
        if t.len() == 0 {
            Err(ParseInstructionError::EmptyStr)
        } else {
            match Mode::named(t[0]) {
                None => Err(ParseInstructionError::BadInstruction),
                Some(mode) => match count_spec(t.len(), mode.arity()) {
                    Some(e) => Err(e),
                    None => match first_reg_spec(t) {
                        Err(e) => Err(e),
                        Ok(op1) => match mode {
                            Mode::Pop => Ok(Ldr { op1, op2: Op2::Reg(0), mode }),
                            Mode::Ldr => match address_spec(t) {
                                Err(e) => Err(e),
                                Ok(op2) => Ok(Ldr { op1, op2, mode }),
                            },
                        },
                    },
                },
            }
        }
    }

    /// Reads the instruction from its tokens.
    pub fn parse(tokens: &Vec<String>) -> (r: Result<Ldr, ParseInstructionError>)
        ensures
            r == Ldr::parse_spec(tokens.deep_view()),
            r matches Ok(instr) ==> instr.wf(),
    {
        let t = lower_tokens(tokens);
        if t.len() == 0 {
            return Err(ParseInstructionError::EmptyStr);
        }
        let mode = if spells(&t[0], "ldr") {
            Mode::Ldr
        } else if spells(&t[0], "pop") {
            Mode::Pop
        } else {
            return Err(ParseInstructionError::BadInstruction);
        };
        let arity: usize = match mode {
            Mode::Ldr => 4,
            Mode::Pop => 2,
        };
        if t.len() < arity {
            return Err(ParseInstructionError::MissingOps);
        }
        if t.len() > arity {
            return Err(ParseInstructionError::ExtraOps);
        }
        let op1 = match parse_first_reg(&t) {
            Ok(op1) => op1,
            Err(e) => {
                return Err(e);
            },
        };
        match mode {
            Mode::Pop => Ok(Ldr { op1, op2: Op2::Reg(0), mode }),
            Mode::Ldr => match parse_address(&t) {
                Ok(op2) => Ok(Ldr { op1, op2, mode }),
                Err(e) => Err(e),
            },
        }
    }

    /// The instruction as the assembler writes it.
    pub open spec fn format_spec(self) -> Seq<char> {
        match self.mode {
            Mode::Ldr => "ldr "@ + reg_text(self.op1) + ", *"@ + self.op2.address_text(),
            Mode::Pop => "pop "@ + reg_text(self.op1),
        }
    }

    /// Writes the instruction as the assembler does.
    pub fn format(&self) -> (s: String)
        ensures
            s@ == self.format_spec(),
    {
        match self.mode {
            Mode::Ldr => {
                let mut s = String::from_str("ldr ");
                push_reg(&mut s, self.op1);
                s.append(", *");
                self.op2.push_address_text(&mut s);
                s
            },
            Mode::Pop => {
                let mut s = String::from_str("pop ");
                push_reg(&mut s, self.op1);
                s
            },
        }
    }

    /// The state after the instruction. POP reads the word at the stack
    /// pointer, moves the stack pointer up by one word, and then writes
    /// the register; LDR reads the word at the address and writes the
    /// register. A word that cannot be read is a fault.
    pub open spec fn apply(self, s: State) -> Result<State, Fault> {
        match self.mode {
            Mode::Pop => match load_word(s.ram, s.reg(SP)) {
                Err(fault) => Err(fault),
                Ok(word) => Ok(s.with_reg(SP, (s.reg(SP) + 2) as u16).with_reg(self.op1, word)),
            },
            Mode::Ldr => match load_word(s.ram, s.address(self.op2)) {
                Err(fault) => Err(fault),
                Ok(word) => Ok(s.with_reg(self.op1, word)),
            },
        }
    }

    /// Executes the instruction. Where it faults nothing is changed.
    pub fn execute(&self, proc: &mut Processor) -> (r: Result<(), Fault>)
        requires
            self.wf(),
        ensures
            match r {
                Ok(()) => self.apply(old(proc)@) == Ok::<State, Fault>(final(proc)@),
                Err(fault) => self.apply(old(proc)@) == Err::<State, Fault>(fault) && final(proc)@
                    == old(proc)@,
            },
    {
        match self.mode {
            Mode::Pop => {
                let sp = proc.regs.get(SP);
                let word = match proc.ram.read(sp) {
                    Ok(word) => word,
                    Err(fault) => {
                        return Err(fault);
                    },
                };
                proc.regs.set(SP, sp + crate::WORDSIZE);
                proc.regs.set(self.op1, word);
                Ok(())
            },
            Mode::Ldr => {
                let addr = proc.address(self.op2);
                let word = match proc.ram.read(addr) {
                    Ok(word) => word,
                    Err(fault) => {
                        return Err(fault);
                    },
                };
                proc.regs.set(self.op1, word);
                Ok(())
            },
        }
    }
}

} // verus!
