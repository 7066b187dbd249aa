//! The processor: registers, status flags and memory, and the
//! fetch-decode-execute cycle.

use crate::alu::{sub_spec, Flags};
use crate::inst::ldr::Ldr;
use crate::inst::str::Str;
use crate::inst::{decode, Instruction, Op2};
use crate::ram::{lemma_load_after_store, load_word, Ram};
use crate::reg::{Bank, Register};
use crate::text::{digit_char, hex4, push_hex4, to_digit_char};
use vstd::prelude::*;
use vstd::string::*;

verus! {

/// Number of registers.
pub const BANKSIZE: usize = 0x10;

/// Number of bytes of memory.
pub const RAMSIZE: usize = 0x4000;

/// Index of the stack pointer.
pub const SP: u16 = 13;

/// Index of the link register.
pub const LR: u16 = 14;

/// Index of the program counter.
pub const PC: u16 = 15;

/// Why the processor could not go on.
#[derive(Clone, Copy, Debug, PartialEq, Eq, Structural)]
pub enum Fault {
    /// A word was accessed at an odd address.
    Misaligned(u16),
    /// A word was accessed beyond the end of memory.
    OutOfBounds(u16),
    /// The word fetched is no instruction.
    Undecodable(u16),
}

/// One of the condition flags of the status register.
#[derive(Clone, Copy, Debug, PartialEq, Eq, Structural)]
pub enum Flag {
    /// Bit 3: an unsigned result did not fit.
    Carry,
    /// Bit 2: a signed result did not fit.
    Overflow,
    /// Bit 1: the result has its top bit set.
    Negative,
    /// Bit 0: the result is zero.
    Zero,
}

/// What a processor holds: sixteen registers, the status word, and the
/// bytes of memory.
pub struct State {
    /// The words of the registers, by index.
    pub regs: Seq<u16>,
    /// The status word.
    pub sr: u16,
    /// The bytes of memory, by address.
    pub ram: Seq<u8>,
}

impl Fault {
    /// The text of the fault, as shown to the user.
    pub open spec fn message_spec(self) -> Seq<char> {
        match self {
            Fault::Misaligned(addr) => "Misaligned access: 0x"@ + hex4(addr),
            Fault::OutOfBounds(addr) => "Access out of memory: 0x"@ + hex4(addr),
            Fault::Undecodable(word) => "Could not decode: 0x"@ + hex4(word),
        }
    }

    /// The text of the fault, as shown to the user.
    pub fn message(&self) -> (s: String)
        ensures
            s@ == self.message_spec(),
    {
        match self {
            Fault::Misaligned(addr) => {
                let mut s = String::from_str("Misaligned access: 0x");
                push_hex4(&mut s, *addr);
                s
            },
            Fault::OutOfBounds(addr) => {
                let mut s = String::from_str("Access out of memory: 0x");
                push_hex4(&mut s, *addr);
                s
            },
            Fault::Undecodable(word) => {
                let mut s = String::from_str("Could not decode: 0x");
                push_hex4(&mut s, *word);
                s
            },
        }
    }
}

impl Flag {
    /// The name of the flag.
    pub open spec fn name(self) -> Seq<char> {
        match self {
            Flag::Carry => "Carry"@,
            Flag::Overflow => "Overflow"@,
            Flag::Negative => "Negative"@,
            Flag::Zero => "Zero"@,
        }
    }
}

/// The names of the flags `flags`, with a comma and a space between two
/// of them.
pub open spec fn names_text(flags: Seq<Flag>) -> Seq<char>
    decreases flags.len(),
{
    if flags.len() == 0 {
        seq![]
    } else if flags.len() == 1 {
        flags[0].name()
    } else {
        names_text(flags.drop_last()) + ", "@ + flags.last().name()
    }
}

/// The first `n` registers as they are shown: `R`, the number of the
/// register in two digits, a colon, and its word in four hexadecimal
/// digits; four registers to a line, with a comma between two of them.
pub open spec fn regs_text(regs: Seq<u16>, n: nat) -> Seq<char>
    decreases n,
{
    if n == 0 || n > regs.len() {
        seq![]
    } else {
        let i = (n - 1) as nat;
        regs_text(regs, i) + "R"@ + seq![digit_char(i / 10 % 10), digit_char(i % 10)] + ": "@
            + hex4(regs[i as int]) + (if n % 4 != 0 {
            ", "@
        } else {
            "\n"@
        })
    }
}

impl State {
    /// Whether the state has all its registers and all its memory.
    pub open spec fn wf(self) -> bool {
        self.regs.len() == BANKSIZE && self.ram.len() == RAMSIZE
    }

    /// The word in register `idx`.
    pub open spec fn reg(self, idx: u16) -> u16 {
        self.regs[idx as int]
    }

    /// The state with `v` in register `idx`.
    pub open spec fn with_reg(self, idx: u16, v: u16) -> State {
        State { regs: self.regs.update(idx as int, v), ..self }
    }

    /// The state with the flags `flags` in the status word.
    pub open spec fn with_flags(self, flags: Flags) -> State {
        State { sr: flags.in_word(self.sr), ..self }
    }

    /// The condition flags of the state.
    pub open spec fn flags(self) -> Flags {
        Flags::of_word(self.sr)
    }

    /// The address that lies `imm` bytes from the program counter, where
    /// `imm` is a displacement in two's complement.
    pub open spec fn relative(self, imm: u16) -> u16 {
        ((self.reg(PC) + imm) % 0x10000) as u16
    }

    /// What the second operand `op2` stands for as a value: the word of
    /// the register, or the immediate itself.
    pub open spec fn value(self, op2: Op2) -> u16 {
        match op2 {
            Op2::Reg(r) => self.reg(r),
            Op2::Imm(imm) => imm,
        }
    }

    /// What the second operand `op2` stands for as an address: the word
    /// of the register, or the place that lies the immediate away from
    /// the program counter.
    pub open spec fn address(self, op2: Op2) -> u16 {
        match op2 {
            Op2::Reg(r) => self.reg(r),
            Op2::Imm(imm) => self.relative(imm),
        }
    }
}

/// The processor of the machine.
#[derive(Clone, Debug)]
pub struct Processor {
    /// The register file.
    pub regs: Bank<BANKSIZE>,
    /// The status register.
    pub sr: Register,
    /// The memory.
    pub ram: Ram<RAMSIZE>,
}

impl View for Processor {
    type V = State;

    open spec fn view(&self) -> State {
        State { regs: self.regs@, sr: self.sr.0, ram: self.ram@ }
    }
}

impl Default for Processor {
    fn default() -> (p: Processor)
        ensures
            p@.regs == Seq::new(BANKSIZE as nat, |i: int| 0u16),
            p@.sr == 0,
            p@.ram == Seq::new(RAMSIZE as nat, |i: int| 0u8),
    {
        Processor { regs: Bank::default(), sr: Register::default(), ram: Ram::default() }
    }
}

impl Processor {
    /// A processor with every register and every byte of memory zero.
    pub fn new() -> (p: Processor)
        ensures
            p@.regs == Seq::new(BANKSIZE as nat, |i: int| 0u16),
            p@.sr == 0,
            p@.ram == Seq::new(RAMSIZE as nat, |i: int| 0u8),
    {
        Processor::default()
    }

    /// The value of the second operand `op2`.
    pub fn value(&self, op2: Op2) -> (v: u16)
        requires
            op2.wf(),
        ensures
            v == self@.value(op2),
    {
        match op2 {
            Op2::Reg(r) => self.regs.get(r),
            Op2::Imm(imm) => imm,
        }
    }

    /// The address that the second operand `op2` names.
    pub fn address(&self, op2: Op2) -> (v: u16)
        requires
            op2.wf(),
        ensures
            v == self@.address(op2),
    {
        match op2 {
            Op2::Reg(r) => self.regs.get(r),
            Op2::Imm(imm) => self.regs.get(PC).wrapping_add(imm),
        }
    }

    /// The condition flags.
    pub fn condition(&self) -> (flags: Flags)
        ensures
            flags == self@.flags(),
    {
        Flags::read(self.sr.0)
    }

    /// Replaces the condition flags.
    pub fn set_condition(&mut self, flags: Flags)
        ensures
            final(self)@ == old(self)@.with_flags(flags),
    {
        self.sr = Register(flags.write(self.sr.0));
    }

    /// The flags that are set: the names of the set bits of the status
    /// register, from bit 3 down to bit 0.
    pub open spec fn flags_spec(sr: u16) -> Seq<Flag> {
        let f = Flags::of_word(sr);
        (if f.carry {
            seq![Flag::Carry]
        } else {
            seq![]
        }) + (if f.overflow {
            seq![Flag::Overflow]
        } else {
            seq![]
        }) + (if f.negative {
            seq![Flag::Negative]
        } else {
            seq![]
        }) + (if f.zero {
            seq![Flag::Zero]
        } else {
            seq![]
        })
    }

    /// Lists the flags that are set.
    pub fn flags(&self) -> (flags: Vec<Flag>)
        ensures
            flags@ == Processor::flags_spec(self@.sr),
    {
        let f = Flags::read(self.sr.0);
        let mut flags = Vec::new();
        if f.carry {
            flags.push(Flag::Carry);
        }
        if f.overflow {
            flags.push(Flag::Overflow);
        }
        if f.negative {
            flags.push(Flag::Negative);
        }
        if f.zero {
            flags.push(Flag::Zero);
        }
        assert(flags@ =~= Processor::flags_spec(self@.sr));
        flags
    }

    /// The registers and the flags as they are shown for tracing: the
    /// registers, then the status word and the list of the flags that
    /// are set.
    pub open spec fn dump_spec(s: State) -> Seq<char> {
        regs_text(s.regs, BANKSIZE as nat) + "SR : "@ + hex4(s.sr) + ", ["@ + names_text(
            Processor::flags_spec(s.sr),
        ) + "]"@
    }

    /// Writes the registers and the flags for tracing.
    pub fn dump(&self) -> (text: String)
        ensures
            text@ == Processor::dump_spec(self@),
    {
        let mut text = String::new();
        let mut i: u16 = 0;
        assert(text@ =~= regs_text(self@.regs, 0));
        while i < 16
            invariant
                i <= 16,
                text@ == regs_text(self@.regs, i as nat),
            decreases 16 - i,
        {
            let ghost before = text@;
            text.append("R");
            text.push(to_digit_char(i / 10 % 10));
            text.push(to_digit_char(i % 10));
            text.append(": ");
            push_hex4(&mut text, self.regs.get(i));
            if (i + 1) % 4 != 0 {
                text.append(", ");
            } else {
                text.append("\n");
            }
            i += 1;
            assert(text@ =~= regs_text(self@.regs, i as nat));
        }
        text.append("SR : ");
        push_hex4(&mut text, self.sr.0);
        text.append(", [");
        let flags = self.flags();
        let ghost head = text@;
        let mut k: usize = 0;
        assert(text@ =~= head + names_text(flags@.take(0)));
        while k < flags.len()
            invariant
                k <= flags.len(),
                text@ == head + names_text(flags@.take(k as int)),
            decreases flags.len() - k,
        {
            let ghost listed = names_text(flags@.take(k as int));
            let ghost prefix = flags@.take(k + 1);
            proof {
                assert(prefix.drop_last() =~= flags@.take(k as int));
                assert(prefix.last() == flags@[k as int]);
                assert(prefix[0] == flags@[0]);
            }
            if k > 0 {
                text.append(", ");
            }
            text.append(
                match flags[k] {
                    Flag::Carry => "Carry",
                    Flag::Overflow => "Overflow",
                    Flag::Negative => "Negative",
                    Flag::Zero => "Zero",
                },
            );
            k += 1;
            assert(text@ =~= head + names_text(prefix)) by {
                if k > 1 {
                    assert(text@ =~= head + (listed + ", "@ + prefix.last().name()));
                } else {
                    assert(listed =~= Seq::<char>::empty());
                }
            }
        }
        assert(flags@.take(k as int) =~= flags@);
        text.append("]");
        assert(text@ =~= Processor::dump_spec(self@));
        text
    }

    /// One cycle of the machine from the state `s`: the state after it,
    /// and the instruction that ran or the fault that stopped it. The
    /// word at the program counter is fetched; the program counter moves
    /// to the next word; the word is decoded; the instruction is
    /// executed. A fault stops the cycle where it arises and leaves the
    /// state as it is then.
    pub open spec fn cycle_spec(s: State) -> (State, Result<Instruction, Fault>) {
        match load_word(s.ram, s.reg(PC)) {
            Err(fault) => (s, Err(fault)),
            Ok(word) => {
                let advanced = s.with_reg(PC, (s.reg(PC) + 2) as u16);
                match Instruction::decode_spec(word) {
                    Err(_) => (advanced, Err(Fault::Undecodable(word))),
                    Ok(instr) => match instr.apply(advanced) {
                        Err(fault) => (advanced, Err(fault)),
                        Ok(after) => (after, Ok(instr)),
                    },
                }
            },
        }
    }

    /// Runs one cycle: fetch, advance, decode, execute. Returns the
    /// instruction that ran.
    pub fn cycle(&mut self) -> (r: Result<Instruction, Fault>)
        ensures
            (final(self)@, r) == Processor::cycle_spec(old(self)@),
    {
        let pc = self.regs.get(PC);
        let word = match self.ram.read(pc) {
            Ok(word) => word,
            Err(fault) => {
                return Err(fault);
            },
        };
        self.regs.set(PC, pc + crate::WORDSIZE);
        let instr = match decode(word) {
            Ok(instr) => instr,
            Err(_) => {
                return Err(Fault::Undecodable(word));
            },
        };
        match instr.execute(self) {
            Ok(()) => Ok(instr),
            Err(fault) => Err(fault),
        }
    }
}

/// The stack discipline: a push of register `a` followed by a pop into
/// register `b` leaves in `b` the word that `a` held before the push,
/// and the stack pointer where it was. Neither register may be the stack
/// pointer itself, which the two instructions move.
pub proof fn lemma_stack_discipline(s: State, a: u16, b: u16)
    requires
        s.wf(),
        a < 16,
        b < 16,
        a != SP,
        b != SP,
        Str::push(a).apply(s) is Ok,
    ensures
        Ldr::pop(b).apply(Str::push(a).apply(s).unwrap()) matches Ok(after) && after.reg(b)
            == s.reg(a) && after.reg(SP) == s.reg(SP),
{
    let pushed = Str::push(a).apply(s).unwrap();
    let sp = sub_spec(s.reg(SP), 2).0;
    assert(pushed.reg(SP) == sp);
    lemma_load_after_store(s.ram, sp, s.reg(a), sp);
}

} // verus!
