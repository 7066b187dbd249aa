//! The assembler: the units of the source files, their linking, and the
//! image that they assemble to.

use crate::emu::loaded_ram;
use crate::inst::{assemble_spec, ParseInstructionError};
use crate::lex::tokens_of;
use crate::line::{views, Line, LineView};
use crate::proc::{Fault, RAMSIZE};
use crate::ram::load_word;
use crate::scope::{built, flat_len, lines_total, Tree};
use crate::unit::{
    assembled, common, lemma_linked_len, linked, resolved_lines, Unit, UnitError, VerboseError,
};
use vstd::prelude::*;

verus! {

/// Why the sources do not assemble.
#[derive(Debug)]
pub enum Failure {
    /// Two units define the same label.
    Link(UnitError),
    /// A line is no instruction.
    Line(VerboseError),
}

/// The lines of a file with the text `text` that have a token, each with
/// its number, which counts from zero.
pub open spec fn source_lines(text: Seq<Seq<char>>) -> Seq<LineView>
    decreases text.len(),
{
    if text.len() == 0 {
        seq![]
    } else if tokens_of(text.last()).len() > 0 {
        source_lines(text.drop_last()).push(
            LineView {
                number: (text.len() - 1) as usize,
                text: text.last(),
                tokens: tokens_of(text.last()),
            },
        )
    } else {
        source_lines(text.drop_last())
    }
}

/// The scope of `acc` with the scopes of `rest` from index `k` on linked
/// after it, one by one; or the labels of the first clash and the index
/// of the scope that clashes.
pub open spec fn link_from(acc: Tree, rest: Seq<Tree>, k: nat) -> Result<
    Tree,
    (Set<Seq<char>>, nat),
>
    decreases rest.len() - k,
{
    if k >= rest.len() {
        Ok(acc)
    } else if !common(acc, rest[k as int]).is_empty() {
        Err((common(acc, rest[k as int]), k))
    } else {
        link_from(linked(acc, rest[k as int]), rest, k + 1)
    }
}

/// The scope of the whole program: the last unit comes first, and the
/// others are linked after it in their order. Where two units define
/// the same label, the labels of the first clash and the index of the
/// unit that could not be added.
pub open spec fn program(units: Seq<Tree>) -> Result<Tree, (Set<Seq<char>>, nat)> {
    if units.len() == 0 {
        Ok(Tree::empty())
    } else {
        link_from(units.last(), units.drop_last(), 0)
    }
}

/// The bytes of a sequence of words, the low byte of each word first.
pub open spec fn bytes_of(words: Seq<u16>) -> Seq<u8> {
    Seq::new(
        2 * words.len(),
        |i: int|
            if i % 2 == 0 {
                (words[i / 2] % 0x100) as u8
            } else {
                (words[i / 2] / 0x100) as u8
            },
    )
}

/// The image that the assembler writes is the program that the emulator
/// reads: word `k` of the image is the word at address `2 * k` of a
/// memory that the image was loaded into.
pub proof fn lemma_image_round_trip(words: Seq<u16>, k: int)
    requires
        0 <= k < words.len(),
        2 * k + 1 < RAMSIZE,
    ensures
        load_word(loaded_ram(bytes_of(words)), (2 * k) as u16) == Ok::<u16, Fault>(words[k]),
{
    let ram = loaded_ram(bytes_of(words));
    let addr = (2 * k) as u16;
    assert(ram[addr as int] == (words[k] % 0x100) as u8);
    assert(ram[addr + 1] == (words[k] / 0x100) as u8);
}

/// What the units of `units` hold, in order.
pub open spec fn unit_trees(units: Seq<Unit>) -> Seq<Tree> {
    Seq::new(units.len(), |i: int| units[i].global@)
}

/// The lines of a sequence of scopes without its first are those of the
/// sequence less those of the first.
pub proof fn lemma_lines_total_skip(units: Seq<Tree>)
    requires
        units.len() > 0,
    ensures
        lines_total(units) == flat_len(units[0]) + lines_total(units.skip(1)),
    decreases units.len(),
{
    if units.len() == 1 {
        assert(units.drop_last() =~= Seq::<Tree>::empty());
        assert(units.skip(1) =~= Seq::<Tree>::empty());
    } else {
        lemma_lines_total_skip(units.drop_last());
        assert(units.drop_last().skip(1) =~= units.skip(1).drop_last());
        assert(units.skip(1).last() == units.last());
        assert(units.drop_last()[0] == units[0]);
    }
}

/// An assembler: the units that were sourced, and the words that they
/// were assembled to.
#[derive(Debug)]
pub struct Assembler {
    /// The units that wait to be assembled.
    pub units: Vec<Unit>,
    /// The words of the program.
    pub words: Vec<u16>,
}

impl Default for Assembler {
    fn default() -> (a: Assembler)
        ensures
            a.units@.len() == 0,
            a.words@.len() == 0,
    {
        Assembler { units: Vec::new(), words: Vec::new() }
    }
}

impl Assembler {
    /// An assembler without units and without words.
    pub fn new() -> (a: Assembler)
        ensures
            a.units@.len() == 0,
            a.words@.len() == 0,
    {
        Assembler { units: Vec::new(), words: Vec::new() }
    }

    /// Adds the unit of a source file: `path` is the path of the file
    /// and `text` holds its lines. A line without tokens is left out.
    pub fn src(&mut self, path: String, text: &Vec<String>)
        ensures
            final(self).words@ == old(self).words@,
            final(self).units@.len() == old(self).units@.len() + 1,
            final(self).units@.drop_last() == old(self).units@,
            final(self).units@.last().path@ == path@,
            final(self).units@.last().global@ == built(source_lines(text.deep_view())),
            lines_total(unit_trees(final(self).units@)) <= lines_total(
                unit_trees(old(self).units@),
            ) + text@.len(),
            text@.len() <= usize::MAX,
    {
        let mut lines: Vec<Line> = Vec::new();
        let mut i: usize = 0;
        assert(text.deep_view().take(0) =~= Seq::<Seq<char>>::empty());
        assert(views(lines@) =~= Seq::<LineView>::empty());
        while i < text.len()
            invariant
                i <= text.len(),
                lines.len() <= i,
                views(lines@) == source_lines(text.deep_view().take(i as int)),
            decreases text.len() - i,
        {
            let ghost before = views(lines@);
            proof {
                let prefix = text.deep_view().take(i + 1);
                assert(prefix.drop_last() =~= text.deep_view().take(i as int));
                assert(prefix.last() == text@[i as int]@);
            }
            let line = Line::new(i, text[i].clone());
            if line.tokens.len() > 0 {
                lines.push(line);
                assert(views(lines@) =~= before.push(line@));
            }
            i += 1;
        }
        assert(text.deep_view().take(i as int) =~= text.deep_view());
        let unit = Unit::new(path, lines);
        self.units.push(unit);
        assert(self.units@.drop_last() =~= old(self).units@);
        assert(unit_trees(self.units@).drop_last() =~= unit_trees(old(self).units@));
    }

    /// Links the units, the last one first and the others after it in
    /// their order, and assembles the program into the words of the
    /// assembler. The units are used up, whether that succeeds or not.
    pub fn assemble(&mut self) -> (r: Result<(), Failure>)
        requires
            lines_total(unit_trees(old(self).units@)) <= usize::MAX,
        ensures
            final(self).units@.len() == 0,
            match r {
                Ok(()) => program(unit_trees(old(self).units@)) matches Ok(tree) && assembled(
                    resolved_lines(tree),
                ) == Ok::<Seq<u16>, int>(final(self).words@),
                Err(Failure::Link(e)) => program(unit_trees(old(self).units@)) matches Err(clash)
                    && e.names().to_set() == clash.0 && e.names().no_duplicates() && clash.1
                    < old(self).units@.len() && e.path() == old(self).units@[clash.1 as int].path@
                    && final(self).words@ == old(self).words@,
                Err(Failure::Line(e)) => program(unit_trees(old(self).units@)) matches Ok(tree)
                    && assembled(resolved_lines(tree)) matches Err(k) && 0 <= k < resolved_lines(
                    tree,
                ).len() && assemble_spec(resolved_lines(tree)[k].tokens) == Err::<
                    u16,
                    ParseInstructionError,
                >(e.err.err) && e.loc.1 == resolved_lines(tree)[k].number && e.line@
                    == resolved_lines(tree)[k].text && e.loc.0@ == old(self).units@.last().path@
                    && final(self).words@ == old(self).words@,
            },
    {
        let ghost all = unit_trees(self.units@);
        let ghost first_path = if self.units@.len() > 0 {
            self.units@.last().path@
        } else {
            Seq::<char>::empty()
        };
        let mut acc = match self.units.pop() {
            Some(unit) => unit,
            None => Unit::default(),
        };
        let ghost rest = unit_trees(self.units@);
        let ghost others = self.units@;
        let ghost mut k: nat = 0;
        proof {
            if all.len() > 0 {
                assert(rest =~= all.drop_last());
                assert(acc.global@ == all.last());
                assert(others =~= old(self).units@.drop_last());
            } else {
                assert(rest =~= Seq::<Tree>::empty());
                assert(flat_len(Tree::empty()) == 0);
            }
            assert(others.skip(0) =~= others);
        }
        while self.units.len() > 0
            invariant
                self.words@ == old(self).words@,
                all == unit_trees(old(self).units@),
                rest == unit_trees(others),
                others.len() < old(self).units@.len() || old(self).units@.len() == 0,
                forall|j: int| 0 <= j < others.len() ==> others[j] == old(self).units@[j],
                acc.path@ == first_path,
                k <= others.len(),
                self.units@ == others.skip(k as int),
                link_from(acc.global@, rest, k) == program(all),
                flat_len(acc.global@) + lines_total(unit_trees(self.units@)) <= usize::MAX,
            decreases self.units.len(),
        {
            let ghost before = unit_trees(self.units@);
            let ghost tree = acc.global@;
            let next = self.units.remove(0);
            proof {
                assert(unit_trees(self.units@) =~= before.skip(1));
                assert(next == others[k as int]);
                assert(next.global@ == rest[k as int]);
                assert(next.global@ == before[0]);
                assert(self.units@ =~= others.skip(k as int + 1));
                lemma_lines_total_skip(before);
                lemma_linked_len(tree, before[0]);
            }
            match acc.concat(next) {
                Ok(unit) => {
                    acc = unit;
                    proof {
                        k = k + 1;
                    }
                },
                Err(e) => {
                    self.units.clear();
                    return Err(Failure::Link(e));
                },
            }
        }
        match acc.assemble() {
            Ok(words) => {
                self.words = words;
                Ok(())
            },
            Err(e) => Err(Failure::Line(e)),
        }
    }

    /// The image of the program: its words in order, the low byte of
    /// each word first, without a header.
    pub fn out(&self) -> (bytes: Vec<u8>)
        ensures
            bytes@ == bytes_of(self.words@),
    {
        let mut bytes: Vec<u8> = Vec::new();
        let mut i: usize = 0;
        while i < self.words.len()
            invariant
                i <= self.words.len(),
                bytes@.len() == 2 * i,
                forall|k: int| 0 <= k < 2 * i ==> bytes@[k] == bytes_of(self.words@)[k],
            decreases self.words.len() - i,
        {
            let word = self.words[i];
            bytes.push((word % 0x100) as u8);
            bytes.push((word / 0x100) as u8);
            i += 1;
        }
        assert(bytes@ =~= bytes_of(self.words@));
        bytes
    }
}

} // verus!
