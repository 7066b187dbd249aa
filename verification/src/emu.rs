//! The emulator: a processor, the image that it runs, and its steps.

use crate::inst::Instruction;
use crate::proc::{Fault, Processor, State, RAMSIZE};
use vstd::prelude::*;

verus! {

/// How an image fitted into memory.
#[derive(Clone, Copy, Debug, PartialEq, Eq, Structural)]
pub enum Loaded {
    /// The image fills memory exactly.
    Exact,
    /// The image is shorter than memory: `read` bytes were copied and
    /// the `padded` bytes after them are zero.
    Short { read: usize, padded: usize },
    /// The image is longer than memory: `read` bytes were copied and the
    /// `dropped` bytes after them were left out.
    Truncated { read: usize, dropped: usize },
}

/// The bytes of memory after `image` is loaded: the image from address
/// zero on, cut at the end of memory, and zero after it.
pub open spec fn loaded_ram(image: Seq<u8>) -> Seq<u8> {
    Seq::new(
        RAMSIZE as nat,
        |i: int|
            if i < image.len() {
                image[i]
            } else {
                0u8
            },
    )
}

/// How an image of `len` bytes fits into memory.
pub open spec fn loaded_report(len: nat) -> Loaded {
    if len < RAMSIZE {
        Loaded::Short { read: len as usize, padded: (RAMSIZE - len) as usize }
    } else if len > RAMSIZE {
        Loaded::Truncated { read: RAMSIZE, dropped: (len - RAMSIZE) as usize }
    } else {
        Loaded::Exact
    }
}

/// An emulator of the machine.
#[derive(Clone, Debug)]
pub struct Emulator {
    /// The processor that is emulated.
    pub proc: Processor,
}

impl View for Emulator {
    type V = State;

    open spec fn view(&self) -> State {
        self.proc@
    }
}

impl Default for Emulator {
    fn default() -> (e: Emulator)
        ensures
            e@.regs == Seq::new(crate::proc::BANKSIZE as nat, |i: int| 0u16),
            e@.sr == 0,
            e@.ram == Seq::new(RAMSIZE as nat, |i: int| 0u8),
    {
        Emulator { proc: Processor::new() }
    }
}

impl Emulator {
    /// An emulator whose processor has every register and every byte of
    /// memory zero, so that it starts at address zero.
    pub fn new() -> (e: Emulator)
        ensures
            e@.regs == Seq::new(crate::proc::BANKSIZE as nat, |i: int| 0u16),
            e@.sr == 0,
            e@.ram == Seq::new(RAMSIZE as nat, |i: int| 0u8),
    {
        Emulator { proc: Processor::new() }
    }

    /// Loads an image into the low end of memory. A short image is
    /// padded with zeros and a long one is cut; either is reported.
    /// Registers and flags are not touched.
    pub fn load(&mut self, image: &Vec<u8>) -> (report: Loaded)
        ensures
            final(self)@.ram == loaded_ram(image@),
            final(self)@.regs == old(self)@.regs,
            final(self)@.sr == old(self)@.sr,
            report == loaded_report(image@.len()),
    {
        let mut i: usize = 0;
        while i < RAMSIZE
            invariant
                i <= RAMSIZE,
                self@.regs == old(self)@.regs,
                self@.sr == old(self)@.sr,
                self@.ram.len() == RAMSIZE,
                forall|k: int| 0 <= k < i ==> self@.ram[k] == loaded_ram(image@)[k],
            decreases RAMSIZE - i,
        {
            let byte: u8 = if i < image.len() {
                image[i]
            } else {
                0
            };
            self.proc.ram.0[i] = byte;
            i += 1;
        }
        assert(self@.ram =~= loaded_ram(image@));
        if image.len() < RAMSIZE {
            Loaded::Short { read: image.len(), padded: RAMSIZE - image.len() }
        } else if image.len() > RAMSIZE {
            Loaded::Truncated { read: RAMSIZE, dropped: image.len() - RAMSIZE }
        } else {
            Loaded::Exact
        }
    }

    /// Runs one cycle of the processor and returns the instruction that
    /// ran, for tracing.
    pub fn step(&mut self) -> (r: Result<Instruction, Fault>)
        ensures
            (final(self)@, r) == Processor::cycle_spec(old(self)@),
    {
        self.proc.cycle()
    }
}

} // verus!
