//! Translation units: the scope of one source file, their linking, and
//! their assembly into words.

use crate::inst::{assemble, assemble_spec, ParseInstructionError};
use crate::line::{views, Line, LineView};
use crate::resolve::{resolved, substituted};
use crate::scope::{flat_len, flatten, lines_upto, Entry, Scope, Tree};
use crate::symbols::{lemma_table_concat, lemma_table_dom, lemma_table_mapped, Symbol, SymbolTable};
use crate::text::decimal;
use vstd::prelude::*;
use vstd::string::*;

verus! {

/// Why two units cannot be linked.
#[derive(Debug)]
pub enum UnitError {
    /// Both units define the labels `names`; `path` is the file of the
    /// unit that was to be added.
    DuplicateSymbols { names: Vec<String>, path: String },
}

/// An error of the assembler, as it is reported.
#[derive(Debug)]
pub struct AsmError {
    /// What is wrong.
    pub err: ParseInstructionError,
}

/// An error of the assembler with the place where it arose.
#[derive(Debug)]
pub struct VerboseError {
    /// What is wrong.
    pub err: AsmError,
    /// The file and the number of the line.
    pub loc: (String, usize),
    /// The text of the line.
    pub line: String,
}

/// `n` spaces.
pub open spec fn spaces(n: nat) -> Seq<char> {
    Seq::new(n, |i: int| ' ')
}

/// Appends `n` spaces to `out`.
pub fn push_spaces(out: &mut String, n: usize)
    ensures
        final(out)@ == old(out)@ + spaces(n as nat),
{
    let mut i: usize = 0;
    assert(out@ =~= old(out)@ + spaces(0));
    while i < n
        invariant
            i <= n,
            out@ == old(out)@ + spaces(i as nat),
        decreases n - i,
    {
        out.push(' ');
        i += 1;
        assert(out@ =~= old(out)@ + spaces(i as nat));
    }
}

impl AsmError {
    /// The text of the error, as shown to the user.
    pub open spec fn message_spec(self) -> Seq<char> {
        "error: "@ + self.err.message_spec()
    }

    /// The text of the error, as shown to the user.
    pub fn message(&self) -> (s: String)
        ensures
            s@ == self.message_spec(),
    {
        let text = self.err.message();
        String::from_str("error: ").concat(text.as_str())
    }
}

impl VerboseError {
    /// The text of the error, as shown to the user: the error, an arrow
    /// to the file and the line, and the text of the line between two
    /// bars, all set off by the width of the line's number.
    pub open spec fn message_spec(self) -> Seq<char> {
        let number = decimal(self.loc.1 as nat);
        let margin = spaces(number.len());
        self.err.message_spec() + "\n"@ + margin + "--> "@ + self.loc.0@ + ":"@ + number + "\n"@
            + margin + " |\n"@ + number + " | "@ + self.line@ + "\n"@ + margin + " |"@
    }

    /// The text of the error, as shown to the user.
    pub fn message(&self) -> (s: String)
        ensures
            s@ == self.message_spec(),
    {
        let mut number = String::new();
        push_wide_decimal(&mut number, self.loc.1);
        assert(number@ =~= decimal(self.loc.1 as nat));
        let width = number.as_str().unicode_len();
        let mut s = self.err.message();
        s.append("\n");
        push_spaces(&mut s, width);
        s.append("--> ");
        s.append(self.loc.0.as_str());
        s.append(":");
        s.append(number.as_str());
        s.append("\n");
        push_spaces(&mut s, width);
        s.append(" |\n");
        s.append(number.as_str());
        s.append(" | ");
        s.append(self.line.as_str());
        s.append("\n");
        push_spaces(&mut s, width);
        s.append(" |");
        assert(s@ =~= self.message_spec());
        s
    }
}

/// Appends `n`, written in decimal, to `out`.
pub fn push_wide_decimal(out: &mut String, n: usize)
    ensures
        final(out)@ == old(out)@ + decimal(n as nat),
    decreases n,
{
    if n >= 10 {
        push_wide_decimal(out, n / 10);
    }
    out.push(crate::text::to_digit_char((n % 10) as u16));
    assert(out@ =~= old(out)@ + decimal(n as nat));
}

impl UnitError {
    /// The names that both units define.
    pub open spec fn names(self) -> Seq<Seq<char>> {
        match self {
            UnitError::DuplicateSymbols { names, path } => names.deep_view(),
        }
    }

    /// The path of the unit that could not be added.
    pub open spec fn path(self) -> Seq<char> {
        match self {
            UnitError::DuplicateSymbols { names, path } => path@,
        }
    }

    /// The names in the list between brackets, each between double
    /// quotes, with a comma and a space between two of them.
    pub open spec fn list_text(names: Seq<Seq<char>>) -> Seq<char>
        decreases names.len(),
    {
        if names.len() == 0 {
            seq![]
        } else if names.len() == 1 {
            "\""@ + names[0] + "\""@
        } else {
            UnitError::list_text(names.drop_last()) + ", \""@ + names.last() + "\""@
        }
    }

    /// The text of the error, as shown to the user. A name is written as
    /// it is: a double quote or a backslash in it is not escaped.
    pub open spec fn message_spec(self) -> Seq<char> {
        match self {
            UnitError::DuplicateSymbols { names, path } => "Duplicate symbols: ["@
                + UnitError::list_text(names.deep_view()) + "] in "@ + path@,
        }
    }

    /// The text of the error, as shown to the user.
    pub fn message(&self) -> (s: String)
        ensures
            s@ == self.message_spec(),
    {
        match self {
            UnitError::DuplicateSymbols { names, path } => {
                let mut s = String::from_str("Duplicate symbols: [");
                let ghost head = s@;
                let mut i: usize = 0;
                assert(s@ =~= head + UnitError::list_text(names.deep_view().take(0)));
                while i < names.len()
                    invariant
                        i <= names.len(),
                        s@ == head + UnitError::list_text(names.deep_view().take(i as int)),
                    decreases names.len() - i,
                {
                    let ghost prefix = names.deep_view().take(i + 1);
                    proof {
                        assert(prefix.drop_last() =~= names.deep_view().take(i as int));
                        assert(prefix.last() == names@[i as int]@);
                        assert(prefix[0] == names@[0]@);
                    }
                    let ghost listed = UnitError::list_text(names.deep_view().take(i as int));
                    if i > 0 {
                        s.append(", \"");
                        s.append(names[i].as_str());
                        s.append("\"");
                        assert(s@ =~= head + (listed + ", \""@ + names@[i as int]@ + "\""@));
                    } else {
                        assert(listed =~= Seq::<char>::empty());
                        s.append("\"");
                        s.append(names[i].as_str());
                        s.append("\"");
                        assert(s@ =~= head + ("\""@ + names@[i as int]@ + "\""@));
                    }
                    i += 1;
                }
                assert(names.deep_view().take(i as int) =~= names.deep_view());
                s.append("] in ");
                s.append(path.as_str());
                assert(s@ =~= self.message_spec());
                s
            },
        }
    }
}

/// The scope of one source file and the path of the file.
#[derive(Debug)]
pub struct Unit {
    /// The path of the source file, for diagnostics.
    pub path: String,
    /// The outermost scope of the file.
    pub global: Scope,
}

impl Default for Unit {
    fn default() -> (unit: Unit)
        ensures
            unit.path@ == Seq::<char>::empty(),
            unit.global@ == Tree::empty(),
    {
        Unit { path: String::new(), global: Scope::default() }
    }
}

/// The labels that two scopes both define.
pub open spec fn common(a: Tree, b: Tree) -> Set<Seq<char>> {
    a.symbols.dom().intersect(b.symbols.dom())
}

/// The scope of two scopes linked: the entries of `a`, then those of
/// `b`; the labels of `a`, and those of `b` bound to the same entries as
/// before, which now stand after the entries of `a`. A label bound
/// beyond the last entry of `b` is bound to the end.
pub open spec fn linked(a: Tree, b: Tree) -> Tree {
    Tree {
        source: a.source + b.source,
        symbols: a.symbols.union_prefer_right(
            b.symbols.map_values(
                |index: nat|
                    a.source.len() + (if index < b.source.len() {
                        index
                    } else {
                        b.source.len()
                    }),
            ),
        ),
    }
}

/// The lines of two sequences of entries, one after the other, are
/// counted one after the other.
pub proof fn lemma_lines_upto_concat(a: Seq<Entry>, b: Seq<Entry>, n: nat)
    requires
        n <= a.len() + b.len(),
    ensures
        n <= a.len() ==> lines_upto(a + b, n) == lines_upto(a, n),
        n >= a.len() ==> lines_upto(a + b, n) == lines_upto(a, a.len()) + lines_upto(
            b,
            (n - a.len()) as nat,
        ),
    decreases n,
{
    if n > 0 {
        lemma_lines_upto_concat(a, b, (n - 1) as nat);
        if n <= a.len() {
            assert((a + b)[n - 1] == a[n - 1]);
        } else {
            assert((a + b)[n - 1] == b[n - 1 - a.len()]);
        }
    }
}

/// Two scopes linked have the lines of both.
pub proof fn lemma_linked_len(a: Tree, b: Tree)
    ensures
        flat_len(linked(a, b)) == flat_len(a) + flat_len(b),
{
    lemma_lines_upto_concat(a.source, b.source, a.source.len() + b.source.len());
}

/// The words of the lines `lines`, or the index of the first line that
/// is no instruction.
pub open spec fn assembled(lines: Seq<LineView>) -> Result<Seq<u16>, int>
    decreases lines.len(),
{
    if lines.len() == 0 {
        Ok(seq![])
    } else {
        match assembled(lines.drop_last()) {
            Err(k) => Err(k),
            Ok(words) => match assemble_spec(lines.last().tokens) {
                Ok(word) => Ok(words.push(word)),
                Err(_) => Err(lines.len() - 1),
            },
        }
    }
}

/// The lines of a scope as they are assembled: after both passes of the
/// resolution of labels, flattened.
pub open spec fn resolved_lines(tree: Tree) -> Seq<LineView> {
    flatten(substituted(resolved(tree, 0), 0, Map::empty()))
}

/// Whether `names` holds `name`.
pub fn holds_name(names: &Vec<String>, name: &String) -> (r: bool)
    ensures
        r == names.deep_view().contains(name@),
{
    let mut i: usize = 0;
    while i < names.len()
        invariant
            i <= names.len(),
            forall|k: int| 0 <= k < i ==> names.deep_view()[k] != name@,
        decreases names.len() - i,
    {
        assert(names.deep_view()[i as int] == names@[i as int]@);
        if names[i] == *name {
            return true;
        }
        i += 1;
    }
    false
}

impl Unit {
    /// The unit of the file at `path` with the lines `lines`.
    pub fn new(path: String, lines: Vec<Line>) -> (unit: Unit)
        ensures
            unit.path@ == path@,
            unit.global@ == crate::scope::built(views(lines@)),
            flat_len(unit.global@) <= lines@.len() <= usize::MAX,
    {
        Unit { path, global: Scope::new(lines) }
    }

    /// The labels that this unit and `other` both define, each once.
    pub fn duplicates(&self, other: &Unit) -> (names: Vec<String>)
        ensures
            names.deep_view().to_set() == common(self.global@, other.global@),
            names.deep_view().no_duplicates(),
    {
        let ghost mine = self.global.symbols.entries@;
        let ghost theirs = other.global.symbols@;
        let mut names: Vec<String> = Vec::new();
        let mut i: usize = 0;
        while i < self.global.symbols.entries.len()
            invariant
                i <= self.global.symbols.entries.len(),
                mine == self.global.symbols.entries@,
                theirs == other.global.symbols@,
                names.deep_view().no_duplicates(),
                forall|name: Seq<char>|
                    names.deep_view().contains(name) <==> theirs.contains_key(name) && exists|
                        k: int,
                    |
                        0 <= k < i && (#[trigger] mine[k]).name@ == name,
            decreases self.global.symbols.entries.len() - i,
        {
            let name = &self.global.symbols.entries[i].name;
            let ghost before = names.deep_view();
            if other.global.symbols.get(name.as_str()).is_some() && !holds_name(&names, name) {
                names.push(name.clone());
                assert(names.deep_view() =~= before.push(name@));
            }
            i += 1;
            assert forall|n: Seq<char>|
                names.deep_view().contains(n) <==> theirs.contains_key(n) && exists|k: int|
                    0 <= k < i && (#[trigger] mine[k]).name@ == n by {
                if names.deep_view().contains(n) {
                    if before.contains(n) {
                        let k = choose|k: int| 0 <= k < i - 1 && (#[trigger] mine[k]).name@ == n;
                        assert(mine[k].name@ == n);
                    } else {
                        assert(n == name@);
                        assert(mine[i - 1].name@ == n);
                    }
                }
                if theirs.contains_key(n) && exists|k: int|
                    0 <= k < i && (#[trigger] mine[k]).name@ == n {
                    let k = choose|k: int| 0 <= k < i && (#[trigger] mine[k]).name@ == n;
                    if k < i - 1 {
                        assert(before.contains(n));
                        let j = choose|j: int| 0 <= j < before.len() && before[j] == n;
                        assert(names.deep_view()[j] == n);
                    } else {
                        assert(n == name@);
                        if before.contains(n) {
                            let j = choose|j: int| 0 <= j < before.len() && before[j] == n;
                            assert(names.deep_view()[j] == n);
                        } else {
                            assert(names.deep_view()[names.len() - 1] == n);
                        }
                    }
                }
            }
        }
        proof {
            assert forall|n: Seq<char>|
                names.deep_view().to_set().contains(n) <==> common(
                    self.global@,
                    other.global@,
                ).contains(n) by {
                lemma_table_dom(mine, n);
            }
            assert(names.deep_view().to_set() =~= common(self.global@, other.global@));
        }
        names
    }

    /// Links `other` after this unit. That fails where both define a
    /// label of the same name, and the error names every such label.
    pub fn concat(self, other: Unit) -> (r: Result<Unit, UnitError>)
        ensures
            match r {
                Ok(unit) => common(self.global@, other.global@).is_empty() && unit.path@
                    == self.path@ && unit.global@ == linked(self.global@, other.global@)
                    && flat_len(unit.global@) == flat_len(self.global@) + flat_len(other.global@),
                Err(e) => !common(self.global@, other.global@).is_empty() && e.names().to_set()
                    == common(self.global@, other.global@) && e.names().no_duplicates()
                    && e.path() == other.path@,
            },
    {
        let names = self.duplicates(&other);
        if names.len() > 0 {
            proof {
                assert(names.deep_view().to_set().contains(names.deep_view()[0]));
            }
            return Err(UnitError::DuplicateSymbols { names, path: other.path });
        }
        proof {
            assert forall|n: Seq<char>| !common(self.global@, other.global@).contains(n) by {
                if names.deep_view().to_set().contains(n) {
                    assert(names.deep_view().contains(n));
                }
            }
            assert(common(self.global@, other.global@) =~= Set::empty());
        }
        let ghost a = self.global@;
        let ghost b = other.global@;
        proof {
            lemma_linked_len(a, b);
        }
        let Unit { path, global } = self;
        let Scope { source, symbols } = global;
        let Unit { path: _, global: theirs } = other;
        let Scope { source: more, symbols: labels } = theirs;
        let mut source = source;
        let mut more = more;
        let mut entries = symbols.entries;
        let before = source.len();
        let added = more.len();
        let ghost mine = entries@;
        source.append(&mut more);
        let total = source.len();
        assert(total == before + added);
        assert(crate::scope::entries(source@) =~= a.source + b.source);
        let ghost shift = |index: nat|
            a.source.len() + (if index < b.source.len() {
                index
            } else {
                b.source.len()
            });
        let mut j: usize = 0;
        while j < labels.entries.len()
            invariant
                j <= labels.entries.len(),
                before + added <= usize::MAX,
                before == a.source.len(),
                added == b.source.len(),
                entries.len() == mine.len() + j,
                entries@.take(mine.len() as int) == mine,
                shift == (|index: nat|
                    a.source.len() + (if index < b.source.len() {
                        index
                    } else {
                        b.source.len()
                    })),
                forall|k: int|
                    0 <= k < j ==> (#[trigger] entries@[mine.len() + k]).name@
                        == labels.entries@[k].name@ && entries@[mine.len() + k].index as nat
                        == shift(labels.entries@[k].index as nat),
            decreases labels.entries.len() - j,
        {
            let index = labels.entries[j].index;
            let at = if index < added {
                index
            } else {
                added
            };
            let ghost old_entries = entries@;
            entries.push(Symbol { name: labels.entries[j].name.clone(), index: before + at });
            assert(entries@.take(mine.len() as int) =~= old_entries.take(mine.len() as int));
            j += 1;
        }
        proof {
            let tail = entries@.skip(mine.len() as int);
            assert(entries@ =~= mine + tail);
            lemma_table_concat(mine, tail);
            assert forall|k: int| 0 <= k < tail.len() implies (#[trigger] tail[k]).name@
                == labels.entries@[k].name@ && tail[k].index as nat == shift(
                labels.entries@[k].index as nat,
            ) by {
                assert(tail[k] == entries@[mine.len() + k]);
            }
            lemma_table_mapped(labels.entries@, tail, shift);
        }
        Ok(Unit { path, global: Scope { source, symbols: SymbolTable { entries } } })
    }

    /// Assembles the unit: resolves its labels, flattens its scopes, and
    /// assembles every line in order. The first line that is no
    /// instruction ends the assembly with its error and its place.
    pub fn assemble(self) -> (r: Result<Vec<u16>, VerboseError>)
        requires
            flat_len(self.global@) <= usize::MAX,
        ensures
            match r {
                Ok(words) => assembled(resolved_lines(self.global@)) == Ok::<Seq<u16>, int>(words@),
                Err(e) => assembled(resolved_lines(self.global@)) matches Err(k) && 0 <= k
                    < resolved_lines(self.global@).len() && assemble_spec(
                    resolved_lines(self.global@)[k].tokens,
                ) == Err::<u16, ParseInstructionError>(e.err.err) && e.loc.0@ == self.path@
                    && e.loc.1 == resolved_lines(self.global@)[k].number && e.line@
                    == resolved_lines(self.global@)[k].text,
            },
    {
        let Unit { path, global } = self;
        let mut global = global;
        global.subst();
        let lines = global.flatten();
        let ghost all = views(lines@);
        let mut words: Vec<u16> = Vec::new();
        let mut i: usize = 0;
        assert(all.take(0) =~= Seq::<LineView>::empty());
        while i < lines.len()
            invariant
                i <= lines.len(),
                all == views(lines@),
                all == resolved_lines(self.global@),
                path@ == self.path@,
                assembled(all.take(i as int)) == Ok::<Seq<u16>, int>(words@),
            decreases lines.len() - i,
        {
            proof {
                assert(all.take(i + 1).drop_last() =~= all.take(i as int));
                assert(all.take(i + 1).last() == lines@[i as int]@);
            }
            match assemble(&lines[i].tokens) {
                Ok(word) => {
                    words.push(word);
                },
                Err(err) => {
                    proof {
                        assert(all[i as int] == lines@[i as int]@);
                        assert(assembled(all.take(i + 1)) == Err::<Seq<u16>, int>(i as int));
                        lemma_assembled_fails(all, i as int);
                    }
                    let e = VerboseError {
                        err: AsmError { err },
                        loc: (path, lines[i].number),
                        line: lines[i].text.clone(),
                    };
                    return Err(e);
                },
            }
            i += 1;
        }
        assert(all.take(i as int) =~= all);
        Ok(words)
    }
}

/// Where the first lines of a sequence fail to assemble, so does the
/// whole, at the same line.
pub proof fn lemma_assembled_fails(lines: Seq<LineView>, k: int)
    requires
        0 <= k < lines.len(),
        assembled(lines.take(k + 1)) == Err::<Seq<u16>, int>(k),
    ensures
        assembled(lines) == Err::<Seq<u16>, int>(k),
    decreases lines.len(),
{
    if lines.len() == k + 1 {
        assert(lines.take(k + 1) =~= lines);
    } else {
        assert(lines.drop_last().take(k + 1) =~= lines.take(k + 1));
        lemma_assembled_fails(lines.drop_last(), k);
    }
}

} // verus!
