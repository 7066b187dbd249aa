//! Scopes: the tree of nested blocks of a source file, how it is built
//! from the lines of the file, and how it is flattened.

use crate::line::{views, Line, LineView, Source};
use crate::symbols::SymbolTable;
use crate::text::{chars_of, spells};
use vstd::prelude::*;

verus! {

/// A scope of a source file: its entries in order, and its labels, each
/// bound to the index of the entry that follows its definition.
#[derive(Debug)]
pub struct Scope {
    /// The lines and the nested scopes, in order.
    pub source: Vec<Source>,
    /// The labels defined in this scope.
    pub symbols: SymbolTable,
}

/// What an entry of a scope holds.
pub enum Entry {
    /// A line.
    Line(LineView),
    /// A nested scope.
    Scope(Tree),
}

/// What a scope holds: its entries and its labels.
pub struct Tree {
    /// The entries, in order.
    pub source: Seq<Entry>,
    /// The labels, by name.
    pub symbols: Map<Seq<char>, nat>,
}

/// What the scope `scope` holds.
pub open spec fn tree_of(scope: Scope) -> Tree
    decreases scope,
{
    Tree { source: entries_upto(scope.source@, scope.source@.len()), symbols: scope.symbols@ }
}

/// What the first `n` entries of `source` hold.
pub open spec fn entries_upto(source: Seq<Source>, n: nat) -> Seq<Entry>
    decreases source, n,
{
    if n == 0 || n > source.len() {
        seq![]
    } else {
        entries_upto(source, (n - 1) as nat).push(
            match source[n - 1] {
                Source::Line(line) => Entry::Line(line@),
                Source::Scope(scope) => Entry::Scope(tree_of(scope)),
            },
        )
    }
}

/// What the entry `source` holds.
pub open spec fn entry_of(source: Source) -> Entry {
    match source {
        Source::Line(line) => Entry::Line(line@),
        Source::Scope(scope) => Entry::Scope(tree_of(scope)),
    }
}

/// What the entries of `source` hold, in order.
pub open spec fn entries(source: Seq<Source>) -> Seq<Entry> {
    Seq::new(source.len(), |i: int| entry_of(source[i]))
}

/// The entries of a scope, taken one by one, are its entries.
pub proof fn lemma_entries(source: Seq<Source>, n: nat)
    requires
        n <= source.len(),
    ensures
        entries_upto(source, n) == entries(source).take(n as int),
    decreases n,
{
    if n > 0 {
        lemma_entries(source, (n - 1) as nat);
    }
    assert(entries_upto(source, n) =~= entries(source).take(n as int));
}

impl View for Scope {
    type V = Tree;

    open spec fn view(&self) -> Tree {
        Tree { source: entries(self.source@), symbols: self.symbols@ }
    }
}

/// The two ways to say what a scope holds agree.
pub proof fn lemma_tree_of(scope: Scope)
    ensures
        tree_of(scope) == scope@,
{
    lemma_entries(scope.source@, scope.source@.len());
    assert(entries(scope.source@).take(scope.source@.len() as int) =~= entries(scope.source@));
}

/// What the scopes of `scopes` hold, in order.
pub open spec fn trees(scopes: Seq<Scope>) -> Seq<Tree> {
    Seq::new(scopes.len(), |i: int| scopes[i]@)
}

impl Tree {
    /// The scope without entries and without labels.
    pub open spec fn empty() -> Tree {
        Tree { source: seq![], symbols: Map::empty() }
    }

    /// The scope with `entry` added after its entries.
    pub open spec fn with_entry(self, entry: Entry) -> Tree {
        Tree { source: self.source.push(entry), symbols: self.symbols }
    }

    /// The scope with the label `name` bound to the entry that comes
    /// next.
    pub open spec fn with_label(self, name: Seq<char>) -> Tree {
        Tree { source: self.source, symbols: self.symbols.insert(name, self.source.len()) }
    }
}

/// What a line means to the structure of a file.
pub enum Directive {
    /// `.begin` or `.func`: a nested scope opens.
    Begin,
    /// `.end`: the scope closes.
    End,
    /// `<name> :`: a label is defined.
    Label(Seq<char>),
    /// Anything else is an entry of the scope.
    Plain,
}

/// What a line of the tokens `tokens` means to the structure of a file.
pub open spec fn directive(tokens: Seq<Seq<char>>) -> Directive {
    if tokens.len() == 2 && tokens[0] == "."@ && (tokens[1] == "begin"@ || tokens[1] == "func"@) {
        Directive::Begin
    } else if tokens.len() == 2 && tokens[0] == "."@ && tokens[1] == "end"@ {
        Directive::End
    } else if tokens.len() == 2 && tokens[1] == ":"@ {
        Directive::Label(tokens[0])
    } else {
        Directive::Plain
    }
}

/// The scopes of a file while it is read: the scope that lines go to,
/// the scopes around it that are still open, outermost first, and
/// whether an `.end` has closed the file's own scope, after which lines
/// are left out.
pub struct Builder {
    /// The open scopes around the current one, outermost first.
    pub open: Seq<Tree>,
    /// The scope that lines go to.
    pub cur: Tree,
    /// Whether the outermost scope was closed.
    pub closed: bool,
}

impl Builder {
    /// The state before any line is read.
    pub open spec fn start() -> Builder {
        Builder { open: seq![], cur: Tree::empty(), closed: false }
    }

    /// The state after one more line is read.
    pub open spec fn feed(self, line: LineView) -> Builder {
        if self.closed {
            self
        } else {
            match directive(line.tokens) {
                Directive::Begin => Builder {
                    open: self.open.push(self.cur),
                    cur: Tree::empty(),
                    closed: false,
                },
                Directive::End => if self.open.len() == 0 {
                    Builder { closed: true, ..self }
                } else {
                    Builder {
                        open: self.open.drop_last(),
                        cur: self.open.last().with_entry(Entry::Scope(self.cur)),
                        closed: false,
                    }
                },
                Directive::Label(name) => Builder { cur: self.cur.with_label(name), ..self },
                Directive::Plain => Builder { cur: self.cur.with_entry(Entry::Line(line)), ..self },
            }
        }
    }

    /// The state after the lines `lines` are read.
    pub open spec fn fed(lines: Seq<LineView>) -> Builder
        decreases lines.len(),
    {
        if lines.len() == 0 {
            Builder::start()
        } else {
            Builder::fed(lines.drop_last()).feed(lines.last())
        }
    }
}

/// The outermost scope once every scope in `open` that is still open is
/// closed around `cur`.
pub open spec fn collapse(open: Seq<Tree>, cur: Tree) -> Tree
    decreases open.len(),
{
    if open.len() == 0 {
        cur
    } else {
        collapse(open.drop_last(), open.last().with_entry(Entry::Scope(cur)))
    }
}

/// The scope that the lines of a file make: `.begin` or `.func` opens a
/// nested scope, `.end` closes it, `<name> :` binds a label to the entry
/// that follows, and any other line is an entry. A scope that is open at
/// the end of the file ends there.
pub open spec fn built(lines: Seq<LineView>) -> Tree {
    collapse(Builder::fed(lines).open, Builder::fed(lines).cur)
}

/// What a line means to the structure of a file, for executable code.
#[derive(Clone, Copy, Debug, PartialEq, Eq, Structural)]
pub enum Kind {
    /// A nested scope opens.
    Begin,
    /// The scope closes.
    End,
    /// A label is defined; its name is the first token.
    Label,
    /// The line is an entry of the scope.
    Plain,
}

/// Tells what a line of the tokens `tokens` means to the structure of a
/// file.
pub fn classify(tokens: &Vec<String>) -> (kind: Kind)
    ensures
        match kind {
            Kind::Begin => directive(tokens.deep_view()) is Begin,
            Kind::End => directive(tokens.deep_view()) is End,
            Kind::Label => directive(tokens.deep_view()) == Directive::Label(tokens@[0]@),
            Kind::Plain => directive(tokens.deep_view()) is Plain,
        },
        kind is Label ==> tokens.len() == 2,
{
    if tokens.len() != 2 {
        return Kind::Plain;
    }
    assert(tokens.deep_view()[0] == tokens@[0]@);
    assert(tokens.deep_view()[1] == tokens@[1]@);
    let first = chars_of(tokens[0].as_str());
    let second = chars_of(tokens[1].as_str());
    if spells(&first, ".") && (spells(&second, "begin") || spells(&second, "func")) {
        Kind::Begin
    } else if spells(&first, ".") && spells(&second, "end") {
        Kind::End
    } else if spells(&second, ":") {
        Kind::Label
    } else {
        Kind::Plain
    }
}

/// The number of lines in the first `n` entries of `source`, nested
/// scopes counted with all their lines. An `n` beyond the last entry
/// counts them all.
pub open spec fn lines_upto(source: Seq<Entry>, n: nat) -> nat
    decreases source, n,
{
    if n == 0 {
        0
    } else if n > source.len() {
        lines_upto(source, source.len())
    } else {
        lines_upto(source, (n - 1) as nat) + match source[n - 1] {
            Entry::Line(_) => 1nat,
            Entry::Scope(tree) => flat_len(tree),
        }
    }
}

/// The number of lines of a scope, nested scopes counted with all their
/// lines.
pub open spec fn flat_len(tree: Tree) -> nat
    decreases tree,
{
    lines_upto(tree.source, tree.source.len())
}

/// The number of lines of all the scopes in `trees`.
pub open spec fn lines_total(trees: Seq<Tree>) -> nat
    decreases trees.len(),
{
    if trees.len() == 0 {
        0
    } else {
        lines_total(trees.drop_last()) + flat_len(trees.last())
    }
}

/// The lines of the first `n` entries of `source`, in order, a nested
/// scope giving all its lines.
pub open spec fn flat_upto(source: Seq<Entry>, n: nat) -> Seq<LineView>
    decreases source, n,
{
    if n == 0 || n > source.len() {
        seq![]
    } else {
        flat_upto(source, (n - 1) as nat) + match source[n - 1] {
            Entry::Line(line) => seq![line],
            Entry::Scope(tree) => flatten(tree),
        }
    }
}

/// The lines of a scope in order, a nested scope giving all its lines in
/// the place where it stands.
pub open spec fn flatten(tree: Tree) -> Seq<LineView>
    decreases tree,
{
    flat_upto(tree.source, tree.source.len())
}

impl Default for Scope {
    fn default() -> (scope: Scope)
        ensures
            scope@ == Tree::empty(),
    {
        let scope = Scope { source: Vec::new(), symbols: SymbolTable::new() };
        assert(scope@.source =~= Tree::empty().source);
        scope
    }
}

impl Scope {
    /// Adds `entry` after the entries of the scope.
    pub fn push(&mut self, entry: Source)
        ensures
            final(self)@ == old(self)@.with_entry(entry_of(entry)),
    {
        self.source.push(entry);
        assert(self@.source =~= old(self)@.source.push(entry_of(entry)));
    }

    /// Builds the scope of a file from its lines.
    pub fn new(lines: Vec<Line>) -> (scope: Scope)
        ensures
            scope@ == built(views(lines@)),
            flat_len(scope@) <= lines@.len() <= usize::MAX,
    {
        let ghost all = views(lines@);
        proof {
            lemma_built_len(all);
        }
        let mut open: Vec<Scope> = Vec::new();
        let mut cur = Scope::default();
        let mut closed = false;
        let mut i: usize = 0;
        assert(all.take(0) =~= Seq::<LineView>::empty());
        assert(trees(open@) =~= Seq::<Tree>::empty());
        while i < lines.len()
            invariant
                i <= lines.len(),
                all == views(lines@),
                Builder::fed(all.take(i as int)) == (Builder {
                    open: trees(open@),
                    cur: cur@,
                    closed,
                }),
            decreases lines.len() - i,
        {
            let ghost before = Builder::fed(all.take(i as int));
            proof {
                assert(all.take(i + 1).drop_last() =~= all.take(i as int));
                assert(all.take(i + 1).last() == lines@[i as int]@);
            }
            if !closed {
                match classify(&lines[i].tokens) {
                    Kind::Begin => {
                        let ghost outer = trees(open@);
                        open.push(cur);
                        cur = Scope::default();
                        assert(trees(open@) =~= outer.push(before.cur));
                    },
                    Kind::End => {
                        let ghost outer = trees(open@);
                        match open.pop() {
                            Some(parent) => {
                                proof {
                                    lemma_tree_of(cur);
                                }
                                let mut parent = parent;
                                parent.push(Source::Scope(cur));
                                cur = parent;
                                assert(trees(open@) =~= outer.drop_last());
                            },
                            None => {
                                closed = true;
                            },
                        }
                    },
                    Kind::Label => {
                        let at = cur.source.len();
                        cur.symbols.insert(lines[i].tokens[0].clone(), at);
                    },
                    Kind::Plain => {
                        cur.push(Source::Line(lines[i].duplicate()));
                    },
                }
            }
            i += 1;
        }
        assert(all.take(i as int) =~= all);
        while open.len() > 0
            invariant
                collapse(trees(open@), cur@) == built(all),
            decreases open.len(),
        {
            let ghost outer = trees(open@);
            proof {
                lemma_tree_of(cur);
            }
            let mut parent = open.pop().unwrap();
            parent.push(Source::Scope(cur));
            cur = parent;
            assert(trees(open@) =~= outer.drop_last());
        }
        cur
    }

    /// Appends the lines of the scope to `out`, in order, those of a
    /// nested scope in the place where it stands.
    pub fn collect(&self, out: &mut Vec<Line>)
        ensures
            views(final(out)@) == views(old(out)@) + flatten(self@),
        decreases self,
    {
        let ghost source = self@.source;
        let mut i: usize = 0;
        assert(views(out@) =~= views(old(out)@) + flat_upto(source, 0));
        while i < self.source.len()
            invariant
                i <= self.source.len(),
                source == self@.source,
                views(out@) == views(old(out)@) + flat_upto(source, i as nat),
            decreases self.source.len() - i,
        {
            let ghost before = views(out@);
            assert(source[i as int] == entry_of(self.source@[i as int]));
            match &self.source[i] {
                Source::Line(line) => {
                    out.push(line.duplicate());
                    assert(views(out@) =~= before + seq![line@]);
                },
                Source::Scope(scope) => {
                    proof {
                        lemma_tree_of(*scope);
                    }
                    scope.collect(out);
                },
            }
            i += 1;
            assert(views(out@) =~= views(old(out)@) + flat_upto(source, i as nat));
        }
    }

    /// The lines of the scope in order, those of a nested scope in the
    /// place where it stands.
    pub fn flatten(self) -> (lines: Vec<Line>)
        ensures
            views(lines@) == flatten(self@),
    {
        let mut lines: Vec<Line> = Vec::new();
        self.collect(&mut lines);
        assert(views(lines@) =~= flatten(self@));
        lines
    }
}

/// The count of lines grows with the count of entries.
pub proof fn lemma_lines_upto_monotonic(source: Seq<Entry>, i: nat, n: nat)
    requires
        i <= n,
    ensures
        lines_upto(source, i) <= lines_upto(source, n),
    decreases n,
{
    if i < n {
        if n > source.len() {
            if i <= source.len() {
                lemma_lines_upto_monotonic(source, i, source.len());
            } else {
            }
        } else {
            lemma_lines_upto_monotonic(source, i, (n - 1) as nat);
        }
    }
}

/// A scope has as many lines as it has when flattened.
pub proof fn lemma_flatten_len(tree: Tree)
    ensures
        flatten(tree).len() == flat_len(tree),
    decreases tree,
{
    lemma_flat_upto_len(tree.source, tree.source.len());
}

/// The first entries of a scope have as many lines as they have when
/// flattened.
pub proof fn lemma_flat_upto_len(source: Seq<Entry>, n: nat)
    requires
        n <= source.len(),
    ensures
        flat_upto(source, n).len() == lines_upto(source, n),
    decreases source, n,
{
    if n > 0 {
        lemma_flat_upto_len(source, (n - 1) as nat);
        match source[n - 1] {
            Entry::Line(_) => {},
            Entry::Scope(tree) => {
                lemma_flatten_len(tree);
            },
        }
    }
}

/// The lines of the first entries of a sequence do not depend on the
/// entries after them.
pub proof fn lemma_upto_push(source: Seq<Entry>, entry: Entry, n: nat)
    requires
        n <= source.len(),
    ensures
        lines_upto(source.push(entry), n) == lines_upto(source, n),
        flat_upto(source.push(entry), n) == flat_upto(source, n),
    decreases n,
{
    if n > 0 {
        lemma_upto_push(source, entry, (n - 1) as nat);
        assert(source.push(entry)[n - 1] == source[n - 1]);
    }
}

/// A scope with one more entry has the lines of that entry more.
pub proof fn lemma_with_entry_len(tree: Tree, entry: Entry)
    ensures
        flat_len(tree.with_entry(entry)) == flat_len(tree) + (match entry {
            Entry::Line(_) => 1nat,
            Entry::Scope(inner) => flat_len(inner),
        }),
{
    lemma_upto_push(tree.source, entry, tree.source.len());
}

/// The scope that open scopes collapse to has the lines of them all.
pub proof fn lemma_collapse_len(open: Seq<Tree>, cur: Tree)
    ensures
        flat_len(collapse(open, cur)) == lines_total(open) + flat_len(cur),
    decreases open.len(),
{
    if open.len() > 0 {
        lemma_with_entry_len(open.last(), Entry::Scope(cur));
        lemma_collapse_len(open.drop_last(), open.last().with_entry(Entry::Scope(cur)));
    }
}

/// While a file is read, its scopes hold no more lines than were read.
pub proof fn lemma_fed_len(lines: Seq<LineView>)
    ensures
        lines_total(Builder::fed(lines).open) + flat_len(Builder::fed(lines).cur) <= lines.len(),
    decreases lines.len(),
{
    if lines.len() > 0 {
        let before = Builder::fed(lines.drop_last());
        let after = before.feed(lines.last());
        lemma_fed_len(lines.drop_last());
        if !before.closed {
            match directive(lines.last().tokens) {
                Directive::Begin => {
                    assert(after.open.drop_last() =~= before.open);
                },
                Directive::End => {
                    if before.open.len() > 0 {
                        lemma_with_entry_len(before.open.last(), Entry::Scope(before.cur));
                    }
                },
                Directive::Label(name) => {},
                Directive::Plain => {
                    lemma_with_entry_len(before.cur, Entry::Line(lines.last()));
                },
            }
        }
    }
}

/// The scope of a file holds no more lines than the file.
pub proof fn lemma_built_len(lines: Seq<LineView>)
    ensures
        flat_len(built(lines)) <= lines.len(),
{
    lemma_fed_len(lines);
    lemma_collapse_len(Builder::fed(lines).open, Builder::fed(lines).cur);
}

/// Whether each line among the first `n` entries of `source`, and each
/// line of the scopes nested in them, stands in `flat` at its address:
/// the address of its scope's first line, plus the number of lines that
/// come before its entry in that scope. `base` is the address of the
/// first line of `source`.
pub open spec fn anchored_upto(source: Seq<Entry>, n: nat, base: nat, flat: Seq<LineView>) -> bool
    decreases source, n,
{
    n == 0 || n > source.len() || (anchored_upto(source, (n - 1) as nat, base, flat) && {
        let at = base + lines_upto(source, (n - 1) as nat);
        match source[n - 1] {
            Entry::Line(line) => at < flat.len() && flat[at as int] == line,
            Entry::Scope(tree) => anchored(tree, at, flat),
        }
    })
}

/// Whether each line of the scope `tree`, at any depth, stands in `flat`
/// at its address, where `base` is the address of the scope's first
/// line.
pub open spec fn anchored(tree: Tree, base: nat, flat: Seq<LineView>) -> bool
    decreases tree,
{
    anchored_upto(tree.source, tree.source.len(), base, flat)
}

/// The lines of a scope stand at their addresses in any sequence that
/// holds the flattened scope from the address `base` on.
pub proof fn lemma_anchored(tree: Tree, base: nat, flat: Seq<LineView>)
    requires
        base + flat_len(tree) <= flat.len(),
        flat.subrange(base as int, (base + flat_len(tree)) as int) == flatten(tree),
    ensures
        anchored(tree, base, flat),
    decreases tree,
{
    lemma_flatten_len(tree);
    lemma_anchored_upto(tree.source, tree.source.len(), base, flat);
}

/// The lines of the first entries of a scope stand at their addresses in
/// any sequence that holds them flattened from the address `base` on.
pub proof fn lemma_anchored_upto(source: Seq<Entry>, n: nat, base: nat, flat: Seq<LineView>)
    requires
        n <= source.len(),
        base + lines_upto(source, n) <= flat.len(),
        flat.subrange(base as int, (base + lines_upto(source, n)) as int) == flat_upto(source, n),
    ensures
        anchored_upto(source, n, base, flat),
    decreases source, n,
{
    if n > 0 {
        let before = lines_upto(source, (n - 1) as nat);
        let whole = flat.subrange(base as int, (base + lines_upto(source, n)) as int);
        lemma_flat_upto_len(source, (n - 1) as nat);
        lemma_flat_upto_len(source, n);
        assert(flat.subrange(base as int, (base + before) as int) =~= whole.subrange(
            0,
            before as int,
        ));
        assert(whole.subrange(0, before as int) =~= flat_upto(source, (n - 1) as nat));
        lemma_anchored_upto(source, (n - 1) as nat, base, flat);
        match source[n - 1] {
            Entry::Line(line) => {
                assert(whole[before as int] == line);
                assert(flat[(base + before) as int] == whole[before as int]);
            },
            Entry::Scope(tree) => {
                lemma_flatten_len(tree);
                let end = before + flat_len(tree);
                assert(flat.subrange((base + before) as int, (base + end) as int)
                    =~= whole.subrange(before as int, end as int));
                assert(whole.subrange(before as int, end as int) =~= flatten(tree));
                lemma_anchored(tree, base + before, flat);
            },
        }
    }
}

/// Where the lines of a scope stand at their addresses, so does the line
/// of each of its entries.
pub proof fn lemma_anchored_entry(
    source: Seq<Entry>,
    n: nat,
    base: nat,
    flat: Seq<LineView>,
    i: int,
)
    requires
        0 <= i < n <= source.len(),
        anchored_upto(source, n, base, flat),
    ensures
        match source[i] {
            Entry::Line(line) => base + lines_upto(source, i as nat) < flat.len() && flat[(base
                + lines_upto(source, i as nat)) as int] == line,
            Entry::Scope(tree) => anchored(tree, base + lines_upto(source, i as nat), flat),
        },
    decreases n,
{
    if i < n - 1 {
        lemma_anchored_entry(source, (n - 1) as nat, base, flat, i);
    }
}

/// Every line of a scope, at any depth, stands at its address in the
/// flattened scope.
pub proof fn lemma_flatten_anchored(tree: Tree)
    ensures
        anchored(tree, 0, flatten(tree)),
{
    lemma_flatten_len(tree);
    assert(flatten(tree).subrange(0, flat_len(tree) as int) =~= flatten(tree));
    lemma_anchored(tree, 0, flatten(tree));
}

} // verus!
