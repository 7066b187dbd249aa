//! The shifts and rotations: LSR, ASR, ROR, LSL, ASL and ROL.

use crate::inst::{DecodeError, ImmKind, Op2, ParseInstructionError};
use crate::inst::layout::{
    dst, dst_of, imm_flag, lemma_fields, lemma_rebuild, low4, opcode, opcode_of, pack, word_of,
};
use crate::inst::operand::{lemma_operand_bytes, push_reg, reg_text};
use crate::inst::syntax::{
    check_count, count_spec, lower_tokens, lowered_tokens, operands_spec, parse_operands,
};
use crate::alu::{as_word, signed, Flags};
use crate::proc::{Processor, State};
use crate::text::spells;
use vstd::arithmetic::power2::{lemma2_to64, pow2};
use vstd::prelude::*;
use vstd::string::*;

verus! {

proof fn lemma_lsr(a: u16, n: u16)
    by (bit_vector)
    requires
        n < 16,
    ensures
        n == 0 ==> a >> n == a / 0x1,
        n == 1 ==> a >> n == a / 0x2,
        n == 2 ==> a >> n == a / 0x4,
        n == 3 ==> a >> n == a / 0x8,
        n == 4 ==> a >> n == a / 0x10,
        n == 5 ==> a >> n == a / 0x20,
        n == 6 ==> a >> n == a / 0x40,
        n == 7 ==> a >> n == a / 0x80,
        n == 8 ==> a >> n == a / 0x100,
        n == 9 ==> a >> n == a / 0x200,
        n == 10 ==> a >> n == a / 0x400,
        n == 11 ==> a >> n == a / 0x800,
        n == 12 ==> a >> n == a / 0x1000,
        n == 13 ==> a >> n == a / 0x2000,
        n == 14 ==> a >> n == a / 0x4000,
        n == 15 ==> a >> n == a / 0x8000,
{
}

proof fn lemma_lsl(a: u16, n: u16)
    by (bit_vector)
    requires
        n < 16,
    ensures
        n == 0 ==> a << n == ((a * 0x1) % 0x10000) as u16,
        n == 1 ==> a << n == ((a * 0x2) % 0x10000) as u16,
        n == 2 ==> a << n == ((a * 0x4) % 0x10000) as u16,
        n == 3 ==> a << n == ((a * 0x8) % 0x10000) as u16,
        n == 4 ==> a << n == ((a * 0x10) % 0x10000) as u16,
        n == 5 ==> a << n == ((a * 0x20) % 0x10000) as u16,
        n == 6 ==> a << n == ((a * 0x40) % 0x10000) as u16,
        n == 7 ==> a << n == ((a * 0x80) % 0x10000) as u16,
        n == 8 ==> a << n == ((a * 0x100) % 0x10000) as u16,
        n == 9 ==> a << n == ((a * 0x200) % 0x10000) as u16,
        n == 10 ==> a << n == ((a * 0x400) % 0x10000) as u16,
        n == 11 ==> a << n == ((a * 0x800) % 0x10000) as u16,
        n == 12 ==> a << n == ((a * 0x1000) % 0x10000) as u16,
        n == 13 ==> a << n == ((a * 0x2000) % 0x10000) as u16,
        n == 14 ==> a << n == ((a * 0x4000) % 0x10000) as u16,
        n == 15 ==> a << n == ((a * 0x8000) % 0x10000) as u16,
{
}

proof fn lemma_asr(a: u16, n: u16)
    by (bit_vector)
    requires
        n < 16,
    ensures
        n == 0 ==> ((a as i16) >> n) as u16 == (if a < 0x8000 {
            a / 0x1
        } else {
            (a / 0x1 + 0x0) as u16
        }),
        n == 1 ==> ((a as i16) >> n) as u16 == (if a < 0x8000 {
            a / 0x2
        } else {
            (a / 0x2 + 0x8000) as u16
        }),
        n == 2 ==> ((a as i16) >> n) as u16 == (if a < 0x8000 {
            a / 0x4
        } else {
            (a / 0x4 + 0xc000) as u16
        }),
        n == 3 ==> ((a as i16) >> n) as u16 == (if a < 0x8000 {
            a / 0x8
        } else {
            (a / 0x8 + 0xe000) as u16
        }),
        n == 4 ==> ((a as i16) >> n) as u16 == (if a < 0x8000 {
            a / 0x10
        } else {
            (a / 0x10 + 0xf000) as u16
        }),
        n == 5 ==> ((a as i16) >> n) as u16 == (if a < 0x8000 {
            a / 0x20
        } else {
            (a / 0x20 + 0xf800) as u16
        }),
        n == 6 ==> ((a as i16) >> n) as u16 == (if a < 0x8000 {
            a / 0x40
        } else {
            (a / 0x40 + 0xfc00) as u16
        }),
        n == 7 ==> ((a as i16) >> n) as u16 == (if a < 0x8000 {
            a / 0x80
        } else {
            (a / 0x80 + 0xfe00) as u16
        }),
        n == 8 ==> ((a as i16) >> n) as u16 == (if a < 0x8000 {
            a / 0x100
        } else {
            (a / 0x100 + 0xff00) as u16
        }),
        n == 9 ==> ((a as i16) >> n) as u16 == (if a < 0x8000 {
            a / 0x200
        } else {
            (a / 0x200 + 0xff80) as u16
        }),
        n == 10 ==> ((a as i16) >> n) as u16 == (if a < 0x8000 {
            a / 0x400
        } else {
            (a / 0x400 + 0xffc0) as u16
        }),
        n == 11 ==> ((a as i16) >> n) as u16 == (if a < 0x8000 {
            a / 0x800
        } else {
            (a / 0x800 + 0xffe0) as u16
        }),
        n == 12 ==> ((a as i16) >> n) as u16 == (if a < 0x8000 {
            a / 0x1000
        } else {
            (a / 0x1000 + 0xfff0) as u16
        }),
        n == 13 ==> ((a as i16) >> n) as u16 == (if a < 0x8000 {
            a / 0x2000
        } else {
            (a / 0x2000 + 0xfff8) as u16
        }),
        n == 14 ==> ((a as i16) >> n) as u16 == (if a < 0x8000 {
            a / 0x4000
        } else {
            (a / 0x4000 + 0xfffc) as u16
        }),
        n == 15 ==> ((a as i16) >> n) as u16 == (if a < 0x8000 {
            a / 0x8000
        } else {
            (a / 0x8000 + 0xfffe) as u16
        }),
{
}

proof fn lemma_ror(a: u16, n: u16, m: u16)
    by (bit_vector)
    requires
        0 < n < 16,
        n + m == 16,
    ensures
        n == 1 ==> (a >> n) | (a << m) == (a / 0x2 + (a % 0x2) * 0x8000) as u16,
        n == 2 ==> (a >> n) | (a << m) == (a / 0x4 + (a % 0x4) * 0x4000) as u16,
        n == 3 ==> (a >> n) | (a << m) == (a / 0x8 + (a % 0x8) * 0x2000) as u16,
        n == 4 ==> (a >> n) | (a << m) == (a / 0x10 + (a % 0x10) * 0x1000) as u16,
        n == 5 ==> (a >> n) | (a << m) == (a / 0x20 + (a % 0x20) * 0x800) as u16,
        n == 6 ==> (a >> n) | (a << m) == (a / 0x40 + (a % 0x40) * 0x400) as u16,
        n == 7 ==> (a >> n) | (a << m) == (a / 0x80 + (a % 0x80) * 0x200) as u16,
        n == 8 ==> (a >> n) | (a << m) == (a / 0x100 + (a % 0x100) * 0x100) as u16,
        n == 9 ==> (a >> n) | (a << m) == (a / 0x200 + (a % 0x200) * 0x80) as u16,
        n == 10 ==> (a >> n) | (a << m) == (a / 0x400 + (a % 0x400) * 0x40) as u16,
        n == 11 ==> (a >> n) | (a << m) == (a / 0x800 + (a % 0x800) * 0x20) as u16,
        n == 12 ==> (a >> n) | (a << m) == (a / 0x1000 + (a % 0x1000) * 0x10) as u16,
        n == 13 ==> (a >> n) | (a << m) == (a / 0x2000 + (a % 0x2000) * 0x8) as u16,
        n == 14 ==> (a >> n) | (a << m) == (a / 0x4000 + (a % 0x4000) * 0x4) as u16,
        n == 15 ==> (a >> n) | (a << m) == (a / 0x8000 + (a % 0x8000) * 0x2) as u16,
{
}

proof fn lemma_rol(a: u16, n: u16, m: u16)
    by (bit_vector)
    requires
        0 < n < 16,
        n + m == 16,
    ensures
        n == 1 ==> (a << n) | (a >> m) == ((a * 0x2 + a / 0x8000) % 0x10000) as u16,
        n == 2 ==> (a << n) | (a >> m) == ((a * 0x4 + a / 0x4000) % 0x10000) as u16,
        n == 3 ==> (a << n) | (a >> m) == ((a * 0x8 + a / 0x2000) % 0x10000) as u16,
        n == 4 ==> (a << n) | (a >> m) == ((a * 0x10 + a / 0x1000) % 0x10000) as u16,
        n == 5 ==> (a << n) | (a >> m) == ((a * 0x20 + a / 0x800) % 0x10000) as u16,
        n == 6 ==> (a << n) | (a >> m) == ((a * 0x40 + a / 0x400) % 0x10000) as u16,
        n == 7 ==> (a << n) | (a >> m) == ((a * 0x80 + a / 0x200) % 0x10000) as u16,
        n == 8 ==> (a << n) | (a >> m) == ((a * 0x100 + a / 0x100) % 0x10000) as u16,
        n == 9 ==> (a << n) | (a >> m) == ((a * 0x200 + a / 0x80) % 0x10000) as u16,
        n == 10 ==> (a << n) | (a >> m) == ((a * 0x400 + a / 0x40) % 0x10000) as u16,
        n == 11 ==> (a << n) | (a >> m) == ((a * 0x800 + a / 0x20) % 0x10000) as u16,
        n == 12 ==> (a << n) | (a >> m) == ((a * 0x1000 + a / 0x10) % 0x10000) as u16,
        n == 13 ==> (a << n) | (a >> m) == ((a * 0x2000 + a / 0x8) % 0x10000) as u16,
        n == 14 ==> (a << n) | (a >> m) == ((a * 0x4000 + a / 0x4) % 0x10000) as u16,
        n == 15 ==> (a << n) | (a >> m) == ((a * 0x8000 + a / 0x2) % 0x10000) as u16,
{
}

/// The kind of shift: bits 6-4 of the word.
#[derive(Clone, Copy, Debug, PartialEq, Eq, Structural)]
pub enum Mode {
    /// Logical shift right.
    Lsr,
    /// Arithmetic shift right: the top bit is kept.
    Asr,
    /// Rotation to the right.
    Ror,
    /// Logical shift left.
    Lsl,
    /// Arithmetic shift left, which moves the bits as the logical one.
    Asl,
    /// Rotation to the left.
    Rol,
}

impl Mode {
    /// The three bits that encode the mode.
    pub open spec fn code(self) -> u16 {
        match self {
            Mode::Lsr => 0,
            Mode::Asr => 1,
            Mode::Ror => 2,
            Mode::Lsl => 4,
            Mode::Asl => 5,
            Mode::Rol => 6,
        }
    }

    /// The mode that three bits encode; `011` and `111` encode none.
    pub open spec fn coded(bits: u16) -> Option<Mode> {
        if bits == 0 {
            Some(Mode::Lsr)
        } else if bits == 1 {
            Some(Mode::Asr)
        } else if bits == 2 {
            Some(Mode::Ror)
        } else if bits == 4 {
            Some(Mode::Lsl)
        } else if bits == 5 {
            Some(Mode::Asl)
        } else if bits == 6 {
            Some(Mode::Rol)
        } else {
            None
        }
    }

    /// The mnemonic of the mode.
    pub open spec fn name(self) -> Seq<char> {
        match self {
            Mode::Lsr => "lsr"@,
            Mode::Asr => "asr"@,
            Mode::Ror => "ror"@,
            Mode::Lsl => "lsl"@,
            Mode::Asl => "asl"@,
            Mode::Rol => "rol"@,
        }
    }

    /// The mode that a mnemonic names.
    pub open spec fn named(token: Seq<char>) -> Option<Mode> {
        if token == "lsr"@ {
            Some(Mode::Lsr)
        } else if token == "asr"@ {
            Some(Mode::Asr)
        } else if token == "ror"@ {
            Some(Mode::Ror)
        } else if token == "lsl"@ {
            Some(Mode::Lsl)
        } else if token == "asl"@ {
            Some(Mode::Asl)
        } else if token == "rol"@ {
            Some(Mode::Rol)
        } else {
            None
        }
    }

    /// The word `a` moved by `n` places. A logical shift to the right
    /// divides by two as many times, an arithmetic one divides the
    /// signed number and rounds down, and a shift to the left multiplies
    /// and keeps the low sixteen bits; a shift by sixteen places or more
    /// leaves nothing. A rotation puts the bits that a shift moves out
    /// back in at the other end, and goes round every sixteen places.
    pub open spec fn moved(self, a: u16, n: u16) -> u16 {
        let k = (n % 16) as nat;
        match self {
            Mode::Lsr => if n < 16 {
                (a as nat / pow2(k)) as u16
            } else {
                0
            },
            Mode::Asr => if n < 16 {
                as_word(signed(a) / (pow2(k) as int))
            } else {
                0
            },
            Mode::Lsl | Mode::Asl => if n < 16 {
                (a as nat * pow2(k) % 0x10000) as u16
            } else {
                0
            },
            Mode::Ror => (a as nat / pow2(k) + a as nat % pow2(k) * pow2((16 - k) as nat)) as u16,
            Mode::Rol => ((a as nat * pow2(k) + a as nat / pow2((16 - k) as nat)) % 0x10000) as u16,
        }
    }

    /// The bit of `a` that a shift moves out first: the lowest for a
    /// shift to the right, the highest for one to the left. A rotation
    /// moves none out.
    pub open spec fn moved_out(self, a: u16) -> bool {
        match self {
            Mode::Lsr | Mode::Asr => a % 2 == 1,
            Mode::Lsl | Mode::Asl => a >= 0x8000,
            Mode::Ror | Mode::Rol => false,
        }
    }

    /// The word `a` moved by `n` places, in shifts and masks.
    pub open spec fn moved_bits(self, a: u16, n: u16) -> u16 {
        let k = (n % 16) as u16;
        match self {
            Mode::Lsr => if n < 16 {
                a >> k
            } else {
                0
            },
            Mode::Asr => if n < 16 {
                ((a as i16) >> k) as u16
            } else {
                0
            },
            Mode::Lsl | Mode::Asl => if n < 16 {
                a << k
            } else {
                0
            },
            Mode::Ror => if k == 0 {
                a
            } else {
                (a >> k) | (a << ((16 - k) as u16))
            },
            Mode::Rol => if k == 0 {
                a
            } else {
                (a << k) | (a >> ((16 - k) as u16))
            },
        }
    }

    /// The shifts and masks of the machine move a word as the arithmetic
    /// says.
    pub proof fn lemma_moved(self, a: u16, n: u16)
        ensures
            self.moved_bits(a, n) == self.moved(a, n),
    {
        let k = (n % 16) as u16;
        lemma2_to64();
        lemma_lsr(a, k);
        lemma_lsl(a, k);
        lemma_asr(a, k);
        if k > 0 {
            lemma_ror(a, k, (16 - k) as u16);
            lemma_rol(a, k, (16 - k) as u16);
        }
        // One case for each distance, so that the power of two is a number.
        if k == 0 {
        } else if k == 1 {
        } else if k == 2 {
        } else if k == 3 {
        } else if k == 4 {
        } else if k == 5 {
        } else if k == 6 {
        } else if k == 7 {
        } else if k == 8 {
        } else if k == 9 {
        } else if k == 10 {
        } else if k == 11 {
        } else if k == 12 {
        } else if k == 13 {
        } else if k == 14 {
        } else {
        }
    }

    /// Moves the word `a` by `n` places.
    pub fn shift(&self, a: u16, n: u16) -> (r: u16)
        ensures
            r == self.moved(a, n),
    {
        proof {
            self.lemma_moved(a, n);
        }
        match self {
            Mode::Lsr => if n < 16 {
                a >> n
            } else {
                0
            },
            Mode::Asr => if n < 16 {
                ((a as i16) >> n) as u16
            } else {
                0
            },
            Mode::Lsl | Mode::Asl => if n < 16 {
                a << n
            } else {
                0
            },
            Mode::Ror => {
                let k: u16 = n % 16;
                if k == 0 {
                    a
                } else {
                    (a >> k) | (a << (16 - k))
                }
            },
            Mode::Rol => {
                let k: u16 = n % 16;
                if k == 0 {
                    a
                } else {
                    (a << k) | (a >> (16 - k))
                }
            },
        }
    }
}

/// A shift or a rotation. Its immediate is a distance of four bits.
#[derive(Clone, Copy, Debug, PartialEq, Eq, Structural)]
pub struct Shf {
    /// The register that is read and then written.
    pub op1: u16,
    /// By how many places its word is moved.
    pub op2: Op2,
    /// The kind of shift.
    pub mode: Mode,
}

impl Shf {
    /// Whether the registers that the instruction names exist.
    pub open spec fn wf(self) -> bool {
        self.op1 < 16 && self.op2.wf()
    }

    /// The instruction that `word` encodes.
    pub open spec fn decode_spec(word: u16) -> Result<Shf, DecodeError> {
        if opcode(word) != 0xe {
            Err(DecodeError { word })
        } else {
            match Mode::coded(word / 0x10 % 8) {
                Some(mode) => Ok(Shf { op1: dst(word), op2: Op2::distance(word), mode }),
                None => Err(DecodeError { word }),
            }
        }
    }

    /// Decodes `word`, which fails where its opcode is not that of a
    /// shift or its mode is none.
    pub fn decode(word: u16) -> (r: Result<Shf, DecodeError>)
        ensures
            r == Shf::decode_spec(word),
            r matches Ok(instr) ==> instr.wf(),
    {
        if opcode_of(word) != 0xe {
            return Err(DecodeError { word });
        }
        proof {
            lemma_fields(word);
        }
        let bits = (word & 0x0070) >> 4;
        let mode = if bits == 0 {
            Mode::Lsr
        } else if bits == 1 {
            Mode::Asr
        } else if bits == 2 {
            Mode::Ror
        } else if bits == 4 {
            Mode::Lsl
        } else if bits == 5 {
            Mode::Asl
        } else if bits == 6 {
            Mode::Rol
        } else {
            return Err(DecodeError { word });
        };
        Ok(Shf { op1: dst_of(word), op2: Op2::decode_distance(word), mode })
    }

    /// The word that encodes the instruction.
    pub open spec fn encode_spec(self) -> u16 {
        word_of(0xe, self.op1, self.low_byte())
    }

    /// Encodes the instruction.
    pub fn encode(&self) -> (word: u16)
        ensures
            word == self.encode_spec(),
    {
        let mode: u16 = match self.mode {
            Mode::Lsr => 0x00,
            Mode::Asr => 0x10,
            Mode::Ror => 0x20,
            Mode::Lsl => 0x40,
            Mode::Asl => 0x50,
            Mode::Rol => 0x60,
        };
        pack(0xe, self.op1, mode + self.op2.encode_distance())
    }

    /// A shift reads every bit of its word.
    pub open spec fn canonical(word: u16) -> u16 {
        word
    }

    /// Decoding a word and encoding the result gives the word back.
    pub proof fn lemma_round_trip(word: u16)
        requires
            Shf::decode_spec(word) is Ok,
        ensures
            Shf::decode_spec(word).unwrap().encode_spec() == Shf::canonical(word),
    {
        lemma_operand_bytes(word);
        lemma_rebuild(word);
        let instr = Shf::decode_spec(word).unwrap();
        assert(instr.mode.code() == word / 0x10 % 8);
        if imm_flag(word) {
            assert(instr.mode.code() * 0x10 + instr.op2.distance_byte() == 0x80 + word / 0x10 % 8
                * 0x10 + low4(word));
        } else {
            assert(instr.mode.code() * 0x10 + instr.op2.distance_byte() == word / 0x10 % 8 * 0x10
                + low4(word));
        }
    }

    /// The low byte of the word that encodes the instruction.
    pub open spec fn low_byte(self) -> u16 {
        (self.mode.code() * 0x10 + self.op2.distance_byte()) as u16
    }

    /// Whether the instruction is one that decoding yields.
    pub open spec fn decoded(self) -> bool {
        self.op1 < 16 && self.op2.is_distance()
    }

    /// An instruction that decoding yields is decoded back from the word
    /// that encodes it.
    pub proof fn lemma_decode_encode(self)
        requires
            self.decoded(),
        ensures
            Shf::decode_spec(self.encode_spec()) == Ok::<Shf, DecodeError>(self),
    {
        let word = self.encode_spec();
        match self.op2 {
            Op2::Reg(r) => {
                crate::inst::layout::lemma_mode_bits(self.mode.code(), r);
                assert(self.op2.distance_byte() == r);
            },
            Op2::Imm(imm) => {
                crate::inst::layout::lemma_mode_bits(self.mode.code(), imm);
                assert(self.op2.distance_byte() == 0x80 + imm);
            },
        }
        assert(self.low_byte() / 0x10 % 8 == self.mode.code());
        crate::inst::layout::lemma_word_fields(0xe, self.op1, self.low_byte());
        assert(Op2::distance(word) == self.op2);
    }

    /// The instruction that the tokens denote: the mnemonic of a mode, a
    /// register, a comma, an operand.
    pub open spec fn parse_spec(tokens: Seq<Seq<char>>) -> Result<Shf, ParseInstructionError> {
        let t = lowered_tokens(tokens);
        match count_spec(t.len(), 4) {
            Some(e) => Err(e),
            None => match Mode::named(t[0]) {
                None => Err(ParseInstructionError::BadInstruction),
                Some(mode) => match operands_spec(t, ImmKind::Bits4) {
                    Ok((op1, op2)) => Ok(Shf { op1, op2, mode }),
                    Err(e) => Err(e),
                },
            },
        }
    }

    /// Reads the instruction from its tokens.
    pub fn parse(tokens: &Vec<String>) -> (r: Result<Shf, ParseInstructionError>)
        ensures
            r == Shf::parse_spec(tokens.deep_view()),
            r matches Ok(instr) ==> instr.wf(),
    {
        let t = lower_tokens(tokens);
        if let Some(e) = check_count(t.len(), 4) {
            return Err(e);
        }
        let mode = if spells(&t[0], "lsr") {
            Mode::Lsr
        } else if spells(&t[0], "asr") {
            Mode::Asr
        } else if spells(&t[0], "ror") {
            Mode::Ror
        } else if spells(&t[0], "lsl") {
            Mode::Lsl
        } else if spells(&t[0], "asl") {
            Mode::Asl
        } else if spells(&t[0], "rol") {
            Mode::Rol
        } else {
            return Err(ParseInstructionError::BadInstruction);
        };
        match parse_operands(&t, ImmKind::Bits4) {
            Ok((op1, op2)) => Ok(Shf { op1, op2, mode }),
            Err(e) => Err(e),
        }
    }

    /// The instruction as the assembler writes it.
    pub open spec fn format_spec(self) -> Seq<char> {
        self.mode.name() + " "@ + reg_text(self.op1) + ", "@ + self.op2.text()
    }

    /// Writes the instruction as the assembler does.
    pub fn format(&self) -> (s: String)
        ensures
            s@ == self.format_spec(),
    {
        let mut s = String::from_str(
            match self.mode {
                Mode::Lsr => "lsr",
                Mode::Asr => "asr",
                Mode::Ror => "ror",
                Mode::Lsl => "lsl",
                Mode::Asl => "asl",
                Mode::Rol => "rol",
            },
        );
        s.append(" ");
        push_reg(&mut s, self.op1);
        s.append(", ");
        self.op2.push_text(&mut s);
        s
    }

    /// The flags after `a` was moved to `res`: zero and negative are
    /// those of `res`, overflow is the bit moved out, carry is kept.
    pub open spec fn flags_after(self, old: Flags, a: u16, res: u16) -> Flags {
        Flags {
            zero: res == 0,
            negative: res >= 0x8000,
            overflow: self.mode.moved_out(a),
            carry: old.carry,
        }
    }

    /// The state after the instruction: the register holds its word
    /// moved by the operand; zero, negative and overflow are written.
    pub open spec fn apply(self, s: State) -> State {
        let a = s.reg(self.op1);
        let res = self.mode.moved(a, s.value(self.op2));
        s.with_flags(self.flags_after(s.flags(), a, res)).with_reg(self.op1, res)
    }

    /// Executes the instruction.
    pub fn execute(&self, proc: &mut Processor)
        requires
            self.wf(),
        ensures
            final(proc)@ == self.apply(old(proc)@),
    {
        let a = proc.regs.get(self.op1);
        let n = proc.value(self.op2);
        let res = self.mode.shift(a, n);
        let out = match self.mode {
            Mode::Lsr | Mode::Asr => a % 2 == 1,
            Mode::Lsl | Mode::Asl => a >= 0x8000,
            Mode::Ror | Mode::Rol => false,
        };
        let old = proc.condition();
        proc.set_condition(
            Flags { zero: res == 0, negative: res >= 0x8000, overflow: out, carry: old.carry },
        );
        proc.regs.set(self.op1, res);
    }
}

} // verus!
