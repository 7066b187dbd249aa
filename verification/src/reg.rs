//! Registers and the register file.

use crate::text::{hex4, push_hex4};
use vstd::prelude::*;

verus! {

/// One word-sized register.
#[derive(Clone, Copy, Debug, PartialEq, Eq, Structural)]
pub struct Register(pub u16);

impl Default for Register {
    fn default() -> (r: Register)
        ensures
            r.0 == 0,
    {
        Register(0)
    }
}

impl Register {
    /// The word that the register holds.
    pub fn get(&self) -> (v: u16)
        ensures
            v == self.0,
    {
        self.0
    }

    /// The word of the register as four hexadecimal digits.
    pub fn format(&self) -> (s: String)
        ensures
            s@ == hex4(self.0),
    {
        let mut s = String::new();
        push_hex4(&mut s, self.0);
        s
    }

    /// Replaces the word that the register holds.
    pub fn set(&mut self, v: u16)
        ensures
            final(self).0 == v,
    {
        self.0 = v;
    }
}

/// A file of `N` registers.
#[derive(Clone, Copy, Debug)]
pub struct Bank<const N: usize>(pub [Register; N]);

impl<const N: usize> View for Bank<N> {
    type V = Seq<u16>;

    /// The words that the registers hold, by index.
    open spec fn view(&self) -> Seq<u16> {
        Seq::new(N as nat, |i: int| self.0@[i].0)
    }
}

impl<const N: usize> Default for Bank<N> {
    fn default() -> (r: Bank<N>)
        ensures
            r@ == Seq::new(N as nat, |i: int| 0u16),
    {
        let zero = Register(0);
        let regs: [Register; N] = [zero;N];
        proof {
            vstd::array::axiom_spec_array_fill_for_copy_type::<Register, N>(zero);
        }
        assert(regs == vstd::array::spec_array_fill_for_copy_type::<Register, N>(zero));
        assert(forall|i: int| 0 <= i < N ==> regs@[i] == zero);
        let r = Bank(regs);
        assert(r@ =~= Seq::new(N as nat, |i: int| 0u16));
        r
    }
}

impl<const N: usize> Bank<N> {
    /// The word in register `idx`.
    pub fn get(&self, idx: u16) -> (v: u16)
        requires
            idx < N,
        ensures
            v == self@[idx as int],
    {
        self.0[idx as usize].0
    }

    /// Writes `v` to register `idx`; the other registers keep their words.
    pub fn set(&mut self, idx: u16, v: u16)
        requires
            idx < N,
        ensures
            final(self)@ == old(self)@.update(idx as int, v),
    {
        self.0[idx as usize] = Register(v);
        assert(self@ =~= old(self)@.update(idx as int, v));
    }
}

} // verus!
