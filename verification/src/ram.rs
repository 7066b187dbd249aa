//! Linear memory: bytes, read and written a word at a time.

use crate::proc::Fault;
use crate::text::{hex4, hex_wide, push_hex4, push_hex_wide};
use vstd::prelude::*;
use vstd::string::*;

verus! {

/// The fault, if any, of accessing the word at `addr` in a memory of
/// `size` bytes: the address must be even, and both bytes inside.
pub open spec fn access_fault(size: nat, addr: u16) -> Option<Fault> {
    if addr % 2 != 0 {
        Some(Fault::Misaligned(addr))
    } else if addr + 1 >= size {
        Some(Fault::OutOfBounds(addr))
    } else {
        None
    }
}

/// The word whose low byte is `lo` and whose high byte is `hi`.
pub open spec fn word_from(lo: u8, hi: u8) -> u16 {
    (lo + 0x100 * hi) as u16
}

/// The word stored at `addr`, low byte first.
pub open spec fn load_word(bytes: Seq<u8>, addr: u16) -> Result<u16, Fault> {
    match access_fault(bytes.len(), addr) {
        Some(fault) => Err(fault),
        None => Ok(word_from(bytes[addr as int], bytes[addr + 1])),
    }
}

/// The memory after `word` is stored at `addr`, low byte first.
pub open spec fn store_word(bytes: Seq<u8>, addr: u16, word: u16) -> Result<Seq<u8>, Fault> {
    match access_fault(bytes.len(), addr) {
        Some(fault) => Err(fault),
        None => Ok(
            bytes.update(addr as int, (word % 0x100) as u8).update(
                addr + 1,
                (word / 0x100) as u8,
            ),
        ),
    }
}

/// A word that is stored is the word that is loaded from the same
/// address, and words elsewhere are not disturbed.
pub proof fn lemma_load_after_store(bytes: Seq<u8>, addr: u16, word: u16, other: u16)
    requires
        store_word(bytes, addr, word) is Ok,
    ensures
        load_word(store_word(bytes, addr, word).unwrap(), addr) == Ok::<u16, Fault>(word),
        other != addr ==> load_word(store_word(bytes, addr, word).unwrap(), other) == load_word(
            bytes,
            other,
        ),
{
}

/// Number of words in a row of a dump of memory.
pub const ROWSIZE: usize = 8;

/// The word of index `w` of a memory: the word at the address `2 * w`.
pub open spec fn word_at(bytes: Seq<u8>, w: nat) -> u16 {
    word_from(bytes[2 * (w as int)], bytes[2 * (w as int) + 1])
}

/// Whether the words of the indices from `from` up to `to` are all zero.
pub open spec fn words_zero(bytes: Seq<u8>, from: nat, to: nat) -> bool {
    forall|w: nat| from <= w < to ==> word_at(bytes, w) == 0
}

/// The words of the indices from `from` up to `to` as they are shown:
/// each after a space, in four hexadecimal digits.
pub open spec fn words_text(bytes: Seq<u8>, from: nat, to: nat) -> Seq<char>
    decreases to,
{
    if to <= from {
        seq![]
    } else {
        words_text(bytes, from, (to - 1) as nat) + " "@ + hex4(word_at(bytes, (to - 1) as nat))
    }
}

/// The index after the last word of row `i`: a row has eight words, but
/// for the last one, which ends with the memory.
pub open spec fn row_end(bytes: Seq<u8>, i: nat) -> nat {
    if 8 * (i + 1) <= bytes.len() / 2 {
        8 * (i + 1)
    } else {
        bytes.len() / 2
    }
}

/// Row `i` of a memory as it is shown: the address of its first word, a
/// colon, and its words.
pub open spec fn row_text(bytes: Seq<u8>, i: nat) -> Seq<char> {
    "0x"@ + hex_wide(16 * i) + ":"@ + words_text(bytes, 8 * i, row_end(bytes, i))
}

/// The first `n` rows of a memory as they are shown: a row whose words
/// are all zero is left out, and every row but the first of the memory
/// begins a new line.
pub open spec fn dump_upto(bytes: Seq<u8>, n: nat) -> Seq<char>
    decreases n,
{
    if n == 0 {
        seq![]
    } else {
        let i = (n - 1) as nat;
        dump_upto(bytes, i) + (if words_zero(bytes, 8 * i, row_end(bytes, i)) {
            seq![]
        } else if i == 0 {
            row_text(bytes, i)
        } else {
            "\n"@ + row_text(bytes, i)
        })
    }
}

/// A memory as it is shown for tracing: its rows that are not all zero.
pub open spec fn dump_spec(bytes: Seq<u8>) -> Seq<char> {
    dump_upto(bytes, (bytes.len() / 2 + 7) / 8)
}

/// A memory of `N` bytes.
#[derive(Clone, Debug)]
pub struct Ram<const N: usize>(pub [u8; N]);

impl<const N: usize> View for Ram<N> {
    type V = Seq<u8>;

    /// The bytes of the memory, by address.
    open spec fn view(&self) -> Seq<u8> {
        self.0@
    }
}

impl<const N: usize> Default for Ram<N> {
    fn default() -> (r: Ram<N>)
        ensures
            r@ == Seq::new(N as nat, |i: int| 0u8),
    {
        let r = Ram([0u8;N]);
        assert(r@ =~= Seq::new(N as nat, |i: int| 0u8));
        r
    }
}

impl<const N: usize> Ram<N> {
    /// Checks that a word can be accessed at `addr`.
    pub fn check(&self, addr: u16) -> (r: Option<Fault>)
        ensures
            r == access_fault(self@.len(), addr),
    {
        if addr % 2 != 0 {
            Some(Fault::Misaligned(addr))
        } else if addr as usize + 1 >= N {
            Some(Fault::OutOfBounds(addr))
        } else {
            None
        }
    }

    /// Reads the word at `addr`.
    pub fn read(&self, addr: u16) -> (r: Result<u16, Fault>)
        ensures
            r == load_word(self@, addr),
    {
        if let Some(fault) = self.check(addr) {
            return Err(fault);
        }
        let lo = self.0[addr as usize];
        let hi = self.0[addr as usize + 1];
        Ok(lo as u16 + 0x100 * (hi as u16))
    }

    /// The word of index `w`.
    pub fn word(&self, w: usize) -> (r: u16)
        requires
            2 * w + 1 < N,
        ensures
            r == word_at(self@, w as nat),
    {
        let lo = self.0[2 * w];
        let hi = self.0[2 * w + 1];
        lo as u16 + 0x100 * (hi as u16)
    }

    /// Writes the memory for tracing: its rows that are not all zero.
    pub fn dump(&self) -> (text: String)
        ensures
            text@ == dump_spec(self@),
    {
        let words: usize = N / 2;
        let mut text = String::new();
        let mut i: usize = 0;
        while i < (words + 7) / 8
            invariant
                i <= (words + 7) / 8,
                words == N / 2,
                self@.len() == N,
                text@ == dump_upto(self@, i as nat),
            decreases (words + 7) / 8 - i,
        {
            let from: usize = 8 * i;
            let to: usize = if 8 * (i + 1) <= words {
                8 * (i + 1)
            } else {
                words
            };
            assert(to == row_end(self@, i as nat));
            let mut zero = true;
            let mut w: usize = from;
            while w < to
                invariant
                    from <= w <= to,
                    to <= words,
                    words == N / 2,
                    self@.len() == N,
                    zero == words_zero(self@, from as nat, w as nat),
                decreases to - w,
            {
                if self.word(w) != 0 {
                    zero = false;
                }
                w += 1;
            }
            if !zero {
                let ghost before = text@;
                if i != 0 {
                    text.append("\n");
                }
                text.append("0x");
                push_hex_wide(&mut text, 16 * i);
                text.append(":");
                let ghost head = text@;
                let mut w: usize = from;
                assert(text@ =~= head + words_text(self@, from as nat, from as nat));
                while w < to
                    invariant
                        from <= w <= to,
                        to <= words,
                        words == N / 2,
                        self@.len() == N,
                        text@ == head + words_text(self@, from as nat, w as nat),
                    decreases to - w,
                {
                    text.append(" ");
                    push_hex4(&mut text, self.word(w));
                    w += 1;
                    assert(text@ =~= head + words_text(self@, from as nat, w as nat));
                }
                assert(text@ =~= before + (if i == 0 {
                    row_text(self@, i as nat)
                } else {
                    "\n"@ + row_text(self@, i as nat)
                }));
            }
            i += 1;
        }
        text
    }

    /// Writes `word` at `addr`. Where that fails the memory is unchanged.
    pub fn write(&mut self, addr: u16, word: u16) -> (r: Result<(), Fault>)
        ensures
            match r {
                Ok(()) => store_word(old(self)@, addr, word) == Ok::<Seq<u8>, Fault>(final(self)@),
                Err(fault) => store_word(old(self)@, addr, word) == Err::<Seq<u8>, Fault>(fault)
                    && final(self)@ == old(self)@,
            },
    {
        if let Some(fault) = self.check(addr) {
            return Err(fault);
        }
        self.0[addr as usize] = (word % 0x100) as u8;
        self.0[addr as usize + 1] = (word / 0x100) as u8;
        Ok(())
    }
}

} // verus!
