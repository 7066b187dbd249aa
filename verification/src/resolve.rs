//! The resolution of labels in two passes: the address pass, which makes
//! every label stand for an address in the flattened file, and the
//! substitution pass, which turns every reference to a label in sight
//! into a displacement from the program counter.

use crate::line::{Line, LineView, Source};
use crate::alu::as_word;
use crate::scope::{
    anchored, entries, entry_of, flat_len, flat_upto, flatten, lemma_anchored_entry,
    lemma_flat_upto_len, lemma_flatten_len, lemma_lines_upto_monotonic, lemma_tree_of,
    lemma_upto_push, lines_upto, Entry, Scope, Tree,
};
use crate::symbols::{lemma_table_mapped, Symbol, SymbolTable};
use crate::text::{hexadecimal, push_hexadecimal};
use vstd::prelude::*;
use vstd::string::*;

verus! {

/// The first `n` entries of `source` after the address pass, where the
/// first line of `source` has the address `base`.
pub open spec fn resolved_upto(source: Seq<Entry>, n: nat, base: nat) -> Seq<Entry>
    decreases source, n,
{
    if n == 0 || n > source.len() {
        seq![]
    } else {
        resolved_upto(source, (n - 1) as nat, base).push(
            match source[n - 1] {
                Entry::Line(line) => Entry::Line(line),
                Entry::Scope(tree) => Entry::Scope(
                    resolved(tree, base + lines_upto(source, (n - 1) as nat)),
                ),
            },
        )
    }
}

/// The scope after the address pass, where its first line has the
/// address `base`: every label, in this scope and in those nested in it,
/// stands for the address of the entry that it was bound to, which is
/// the number of lines that come before that entry once all is
/// flattened.
pub open spec fn resolved(tree: Tree, base: nat) -> Tree
    decreases tree,
{
    Tree {
        source: resolved_upto(tree.source, tree.source.len(), base),
        symbols: tree.symbols.map_values(|index: nat| base + lines_upto(tree.source, index)),
    }
}

/// The displacement from the line at address `at` to the address
/// `target`: the distance in bytes from the word after the line, kept
/// within sixteen bits signed.
pub open spec fn displacement(target: nat, at: nat) -> int {
    let bytes = 2 * (target - (at + 1));
    if bytes < -0x8000 {
        -0x8000
    } else if bytes > 0x7fff {
        0x7fff
    } else {
        bytes
    }
}

/// The literal that stands for the word `word`: `0x` and its
/// hexadecimal digits.
pub open spec fn literal(word: u16) -> Seq<char> {
    "0x"@ + hexadecimal(word as nat)
}

/// The tokens of a line at address `at` after the substitution pass:
/// every token that is a label of `env` is the literal of the
/// displacement to the label's address.
pub open spec fn relocated(tokens: Seq<Seq<char>>, env: Map<Seq<char>, nat>, at: nat) -> Seq<
    Seq<char>,
> {
    Seq::new(
        tokens.len(),
        |i: int|
            if env.contains_key(tokens[i]) {
                literal(as_word(displacement(env[tokens[i]], at)))
            } else {
                tokens[i]
            },
    )
}

/// The line `line` at address `at` after the substitution pass: its
/// number and its text are kept.
pub open spec fn relocated_line(line: LineView, env: Map<Seq<char>, nat>, at: nat) -> LineView {
    LineView { number: line.number, text: line.text, tokens: relocated(line.tokens, env, at) }
}

/// The first `n` entries of `source` after the substitution pass, where
/// the first line of `source` has the address `base` and `env` holds the
/// labels in sight.
pub open spec fn substituted_upto(
    source: Seq<Entry>,
    n: nat,
    base: nat,
    env: Map<Seq<char>, nat>,
) -> Seq<Entry>
    decreases source, n,
{
    if n == 0 || n > source.len() {
        seq![]
    } else {
        let at = base + lines_upto(source, (n - 1) as nat);
        substituted_upto(source, (n - 1) as nat, base, env).push(
            match source[n - 1] {
                Entry::Line(line) => Entry::Line(relocated_line(line, env, at)),
                Entry::Scope(tree) => Entry::Scope(substituted(tree, at, env)),
            },
        )
    }
}

/// The scope after the substitution pass, where its first line has the
/// address `base` and `outer` holds the labels of the scopes around it.
/// The labels in sight are those of `outer` and the scope's own, which
/// come first where a name is in both; they are in sight in the scopes
/// nested in it too.
pub open spec fn substituted(tree: Tree, base: nat, outer: Map<Seq<char>, nat>) -> Tree
    decreases tree,
{
    let env = outer.union_prefer_right(tree.symbols);
    Tree { source: substituted_upto(tree.source, tree.source.len(), base, env), symbols: env }
}

/// The labels in sight of the line at address `at`, where that line is
/// among the first `n` entries of `source` or in a scope nested in them:
/// `env` where the line is an entry itself, and what is in sight inside
/// the nested scope else. `base` is the address of the first line of
/// `source`.
pub open spec fn sight_upto(
    source: Seq<Entry>,
    n: nat,
    base: nat,
    env: Map<Seq<char>, nat>,
    at: nat,
) -> Map<Seq<char>, nat>
    decreases source, n,
{
    if n == 0 || n > source.len() {
        env
    } else if at >= base + lines_upto(source, (n - 1) as nat) {
        match source[n - 1] {
            Entry::Line(_) => env,
            Entry::Scope(tree) => sight(tree, base + lines_upto(source, (n - 1) as nat), env, at),
        }
    } else {
        sight_upto(source, (n - 1) as nat, base, env, at)
    }
}

/// The labels in sight of the line at address `at` of the scope `tree`,
/// whose first line has the address `base`: the labels of every scope
/// that the line is in, from `outer` inwards, an inner label taking the
/// place of an outer one of the same name.
pub open spec fn sight(tree: Tree, base: nat, outer: Map<Seq<char>, nat>, at: nat) -> Map<
    Seq<char>,
    nat,
>
    decreases tree,
{
    sight_upto(tree.source, tree.source.len(), base, outer.union_prefer_right(tree.symbols), at)
}

/// Writes the literal of the displacement from the line at address `at`
/// to the address `target`.
pub fn relocation(target: usize, at: usize) -> (text: String)
    ensures
        text@ == literal(as_word(displacement(target as nat, at as nat))),
{
    let bytes: i128 = 2 * (target as i128 - (at as i128 + 1));
    let word: u16 = if bytes < -0x8000 {
        0x8000
    } else if bytes > 0x7fff {
        0x7fff
    } else if bytes < 0 {
        (bytes + 0x10000) as u16
    } else {
        bytes as u16
    };
    let mut text = String::from_str("0x");
    push_hexadecimal(&mut text, word);
    text
}

/// The tokens of the line at address `at` after substitution: a token
/// that is a label of `env` becomes the literal of the displacement to
/// the label's address.
pub fn relocate(tokens: &Vec<String>, env: &SymbolTable, at: usize) -> (out: Vec<String>)
    ensures
        out.deep_view() == relocated(tokens.deep_view(), env@, at as nat),
{
    let mut out: Vec<String> = Vec::new();
    let mut i: usize = 0;
    while i < tokens.len()
        invariant
            i <= tokens.len(),
            out.len() == i,
            forall|k: int|
                0 <= k < i ==> (#[trigger] out@[k])@ == relocated(
                    tokens.deep_view(),
                    env@,
                    at as nat,
                )[k],
        decreases tokens.len() - i,
    {
        assert(tokens.deep_view()[i as int] == tokens@[i as int]@);
        match env.get(tokens[i].as_str()) {
            Some(target) => {
                out.push(relocation(target, at));
            },
            None => {
                out.push(tokens[i].clone());
            },
        }
        i += 1;
    }
    assert(out.deep_view() =~= relocated(tokens.deep_view(), env@, at as nat));
    out
}

impl Scope {
    /// The address pass: the scope with every label, its own and those
    /// of the scopes nested in it, standing for the address of its entry.
    /// `base` is the address of the scope's first line. Returns the scope
    /// and the address after its last line.
    pub fn update(&self, base: usize) -> (r: (Scope, usize))
        requires
            base + flat_len(self@) <= usize::MAX,
        ensures
            r.0@ == resolved(self@, base as nat),
            r.1 == base + flat_len(self@),
        decreases self,
    {
        let ghost source = self@.source;
        let n = self.source.len();
        let mut done: Vec<Source> = Vec::new();
        let mut starts: Vec<usize> = Vec::new();
        let mut count: usize = base;
        let mut i: usize = 0;
        starts.push(base);
        assert(entries(done@) =~= resolved_upto(source, 0, base as nat));
        while i < n
            invariant
                i <= n,
                n == self.source.len(),
                source == self@.source,
                base + flat_len(self@) <= usize::MAX,
                count == base + lines_upto(source, i as nat),
                starts.len() == i + 1,
                forall|k: int|
                    0 <= k <= i ==> #[trigger] starts@[k] == base + lines_upto(source, k as nat),
                entries(done@) == resolved_upto(source, i as nat, base as nat),
            decreases n - i,
        {
            let ghost before = entries(done@);
            proof {
                assert(source[i as int] == entry_of(self.source@[i as int]));
                lemma_lines_upto_monotonic(source, (i + 1) as nat, n as nat);
            }
            match &self.source[i] {
                Source::Line(line) => {
                    done.push(Source::Line(line.duplicate()));
                    count = count + 1;
                },
                Source::Scope(scope) => {
                    proof {
                        lemma_tree_of(*scope);
                    }
                    let (child, next) = scope.update(count);
                    proof {
                        lemma_tree_of(child);
                    }
                    done.push(Source::Scope(child));
                    count = next;
                },
            }
            starts.push(count);
            i += 1;
            assert(entries(done@) =~= before.push(entry_of(done@.last())));
        }
        let mut symbols: Vec<Symbol> = Vec::new();
        let mut j: usize = 0;
        let ghost f = |index: nat| base as nat + lines_upto(source, index);
        while j < self.symbols.entries.len()
            invariant
                j <= self.symbols.entries.len(),
                n == self.source.len(),
                source == self@.source,
                source.len() == n,
                starts.len() == n + 1,
                forall|k: int|
                    0 <= k <= n ==> #[trigger] starts@[k] == base + lines_upto(source, k as nat),
                symbols.len() == j,
                f == (|index: nat| base as nat + lines_upto(source, index)),
                forall|k: int|
                    0 <= k < j ==> (#[trigger] symbols@[k]).name@ == self.symbols.entries@[k].name@
                        && symbols@[k].index as nat == f(self.symbols.entries@[k].index as nat),
            decreases self.symbols.entries.len() - j,
        {
            let index = self.symbols.entries[j].index;
            let at = if index < n {
                index
            } else {
                n
            };
            symbols.push(Symbol { name: self.symbols.entries[j].name.clone(), index: starts[at] });
            j += 1;
        }
        proof {
            lemma_table_mapped(self.symbols.entries@, symbols@, f);
        }
        (Scope { source: done, symbols: SymbolTable { entries: symbols } }, count)
    }

    /// The substitution pass: the scope with every token that is a label
    /// in sight replaced by the literal of the displacement to the
    /// label's address. `base` is the address of the scope's first line
    /// and `outer` holds the labels of the scopes around it. Returns the
    /// scope and the address after its last line.
    pub fn replace(&self, base: usize, outer: &SymbolTable) -> (r: (Scope, usize))
        requires
            base + flat_len(self@) <= usize::MAX,
        ensures
            r.0@ == substituted(self@, base as nat, outer@),
            r.1 == base + flat_len(self@),
        decreases self,
    {
        let ghost source = self@.source;
        let n = self.source.len();
        let env = outer.overridden(&self.symbols);
        let mut done: Vec<Source> = Vec::new();
        let mut count: usize = base;
        let mut i: usize = 0;
        assert(entries(done@) =~= substituted_upto(source, 0, base as nat, env@));
        while i < n
            invariant
                i <= n,
                n == self.source.len(),
                source == self@.source,
                base + flat_len(self@) <= usize::MAX,
                count == base + lines_upto(source, i as nat),
                entries(done@) == substituted_upto(
                    source,
                    i as nat,
                    base as nat,
                    env@,
                ),
            decreases n - i,
        {
            let ghost before = entries(done@);
            proof {
                assert(source[i as int] == entry_of(self.source@[i as int]));
                lemma_lines_upto_monotonic(source, (i + 1) as nat, n as nat);
            }
            match &self.source[i] {
                Source::Line(line) => {
                    let tokens = relocate(&line.tokens, &env, count);
                    done.push(
                        Source::Line(Line { number: line.number, text: line.text.clone(), tokens }),
                    );
                    count = count + 1;
                },
                Source::Scope(scope) => {
                    proof {
                        lemma_tree_of(*scope);
                    }
                    let (child, next) = scope.replace(count, &env);
                    proof {
                        lemma_tree_of(child);
                    }
                    done.push(Source::Scope(child));
                    count = next;
                },
            }
            i += 1;
            assert(entries(done@) =~= before.push(entry_of(done@.last())));
        }
        (Scope { source: done, symbols: env }, count)
    }

    /// Resolves the labels of the scope in two passes: the address pass,
    /// which makes every label stand for an address in the flattened
    /// stream, and the substitution pass, which replaces every reference
    /// to a label in sight by the displacement to it.
    pub fn subst(&mut self)
        requires
            flat_len(old(self)@) <= usize::MAX,
        ensures
            final(self)@ == substituted(resolved(old(self)@, 0), 0, Map::empty()),
    {
        let (addressed, _) = self.update(0);
        proof {
            lemma_resolved_len(self@, 0);
        }
        let (replaced, _) = addressed.replace(0, &SymbolTable::new());
        *self = replaced;
    }
}

/// The address pass keeps the number of entries of a scope.
pub proof fn lemma_resolved_upto_count(source: Seq<Entry>, n: nat, base: nat)
    requires
        n <= source.len(),
    ensures
        resolved_upto(source, n, base).len() == n,
    decreases n,
{
    if n > 0 {
        lemma_resolved_upto_count(source, (n - 1) as nat, base);
    }
}

/// The entries of a scope after the address pass, one by one.
pub proof fn lemma_resolved_upto_index(source: Seq<Entry>, n: nat, base: nat, k: int)
    requires
        0 <= k < n <= source.len(),
    ensures
        resolved_upto(source, n, base).len() == n,
        resolved_upto(source, n, base)[k] == (match source[k] {
            Entry::Line(line) => Entry::Line(line),
            Entry::Scope(tree) => Entry::Scope(
                resolved(tree, base + lines_upto(source, k as nat)),
            ),
        }),
    decreases n,
{
    lemma_resolved_upto_count(source, (n - 1) as nat, base);
    if k < n - 1 {
        lemma_resolved_upto_index(source, (n - 1) as nat, base, k);
    }
}

/// The address pass keeps the number of lines of the first entries of a
/// scope.
pub proof fn lemma_resolved_upto_len(source: Seq<Entry>, n: nat, base: nat, i: nat)
    requires
        i <= n <= source.len(),
    ensures
        resolved_upto(source, n, base).len() == n,
        lines_upto(resolved_upto(source, n, base), i) == lines_upto(source, i),
    decreases source, n, i,
{
    lemma_resolved_upto_count(source, n, base);
    if i > 0 {
        lemma_resolved_upto_len(source, n, base, (i - 1) as nat);
        lemma_resolved_upto_index(source, n, base, (i - 1) as int);
        match source[i - 1] {
            Entry::Line(_) => {},
            Entry::Scope(tree) => {
                lemma_resolved_len(tree, base + lines_upto(source, (i - 1) as nat));
            },
        }
    }
}

/// The address pass keeps the number of lines of a scope.
pub proof fn lemma_resolved_len(tree: Tree, base: nat)
    ensures
        flat_len(resolved(tree, base)) == flat_len(tree),
    decreases tree,
{
    lemma_resolved_upto_len(tree.source, tree.source.len(), base, tree.source.len());
}

/// The address pass is right about labels: in a scope whose lines stand
/// at their addresses in `flat`, as they do in the flattened file, a
/// label that is bound to a line stands after the pass for the index of
/// that very line in `flat`. The scopes nested in the scope are anchored
/// at the addresses at which the pass resolves them, so this holds of
/// their labels too, at any depth.
pub proof fn lemma_label_address(tree: Tree, base: nat, flat: Seq<LineView>, name: Seq<char>)
    requires
        anchored(tree, base, flat),
        tree.symbols.contains_key(name),
        tree.symbols[name] < tree.source.len(),
        tree.source[tree.symbols[name] as int] is Line,
    ensures
        resolved(tree, base).symbols.contains_key(name),
        resolved(tree, base).symbols[name] < flat.len(),
        Entry::Line(flat[resolved(tree, base).symbols[name] as int])
            == tree.source[tree.symbols[name] as int],
        forall|i: int|
            0 <= i < tree.source.len() ==> (#[trigger] tree.source[i] matches Entry::Scope(inner)
                ==> resolved(tree, base).source[i] == Entry::Scope(
                resolved(inner, base + lines_upto(tree.source, i as nat)),
            ) && anchored(inner, base + lines_upto(tree.source, i as nat), flat)),
{
    lemma_anchored_entry(tree.source, tree.source.len(), base, flat, tree.symbols[name] as int);
    assert forall|i: int| 0 <= i < tree.source.len() implies (#[trigger] tree.source[i] matches
        Entry::Scope(inner) ==> resolved(tree, base).source[i] == Entry::Scope(
        resolved(inner, base + lines_upto(tree.source, i as nat)),
    ) && anchored(inner, base + lines_upto(tree.source, i as nat), flat)) by {
        lemma_resolved_upto_index(tree.source, tree.source.len(), base, i);
        lemma_anchored_entry(tree.source, tree.source.len(), base, flat, i);
    }
}

/// The literal that the substitution pass writes reads back as the word
/// that it was written from, as an immediate and as an operand.
pub proof fn lemma_literal_value(word: u16)
    ensures
        crate::lex::imm_value(literal(word)) == Some(word),
        crate::inst::Op2::parse_spec(literal(word)) == Some(crate::inst::Op2::Imm(word)),
        crate::text::lowered(literal(word)) == literal(word),
{
    reveal_strlit("0x");
    let digits = hexadecimal(word as nat);
    crate::text::lemma_hexadecimal_value(word as nat);
    crate::text::lemma_hexadecimal_small(word as nat);
    let text = literal(word);
    assert(text.skip(2) =~= digits);
    assert(text[0] == '0' && text[1] == 'x');
    assert(crate::text::lowered(text) =~= text);
}

/// The substitution pass keeps the number of entries of a scope.
pub proof fn lemma_substituted_upto_count(
    source: Seq<Entry>,
    n: nat,
    base: nat,
    env: Map<Seq<char>, nat>,
)
    requires
        n <= source.len(),
    ensures
        substituted_upto(source, n, base, env).len() == n,
    decreases n,
{
    if n > 0 {
        lemma_substituted_upto_count(source, (n - 1) as nat, base, env);
    }
}

/// The substitution pass keeps the number of lines of the first entries
/// of a scope.
pub proof fn lemma_substituted_upto_len(
    source: Seq<Entry>,
    n: nat,
    base: nat,
    env: Map<Seq<char>, nat>,
)
    requires
        n <= source.len(),
    ensures
        lines_upto(substituted_upto(source, n, base, env), n) == lines_upto(source, n),
    decreases source, n,
{
    if n > 0 {
        let shorter = substituted_upto(source, (n - 1) as nat, base, env);
        let longer = substituted_upto(source, n, base, env);
        lemma_substituted_upto_count(source, (n - 1) as nat, base, env);
        lemma_substituted_upto_len(source, (n - 1) as nat, base, env);
        lemma_upto_push(shorter, longer.last(), (n - 1) as nat);
        match source[n - 1] {
            Entry::Line(_) => {},
            Entry::Scope(tree) => {
                lemma_substituted_len(tree, base + lines_upto(source, (n - 1) as nat), env);
            },
        }
    }
}

/// The substitution pass keeps the number of lines of a scope.
pub proof fn lemma_substituted_len(tree: Tree, base: nat, outer: Map<Seq<char>, nat>)
    ensures
        flat_len(substituted(tree, base, outer)) == flat_len(tree),
    decreases tree,
{
    let env = outer.union_prefer_right(tree.symbols);
    lemma_substituted_upto_count(tree.source, tree.source.len(), base, env);
    lemma_substituted_upto_len(tree.source, tree.source.len(), base, env);
}

/// The substitution pass seen in the flattened first entries of a scope.
pub proof fn lemma_substituted_flat_upto(
    source: Seq<Entry>,
    n: nat,
    base: nat,
    env: Map<Seq<char>, nat>,
    k: int,
)
    requires
        n <= source.len(),
        0 <= k < lines_upto(source, n),
    ensures
        flat_upto(substituted_upto(source, n, base, env), n)[k] == relocated_line(
            flat_upto(source, n)[k],
            sight_upto(source, n, base, env, (base + k) as nat),
            (base + k) as nat,
        ),
    decreases source, n,
{
    let shorter = substituted_upto(source, (n - 1) as nat, base, env);
    let longer = substituted_upto(source, n, base, env);
    let before = lines_upto(source, (n - 1) as nat);
    lemma_substituted_upto_count(source, (n - 1) as nat, base, env);
    lemma_substituted_upto_count(source, n, base, env);
    lemma_substituted_upto_len(source, (n - 1) as nat, base, env);
    lemma_upto_push(shorter, longer.last(), (n - 1) as nat);
    lemma_flat_upto_len(source, (n - 1) as nat);
    lemma_flat_upto_len(shorter, (n - 1) as nat);
    assert(flat_upto(longer, (n - 1) as nat) == flat_upto(shorter, (n - 1) as nat));
    assert(flat_upto(shorter, (n - 1) as nat).len() == before);
    if k < before {
        lemma_substituted_flat_upto(source, (n - 1) as nat, base, env, k);
    } else {
        match source[n - 1] {
            Entry::Line(line) => {
                assert(k == before);
            },
            Entry::Scope(tree) => {
                lemma_substituted_flat(tree, base + before, env, k - before);
            },
        }
    }
}

/// The substitution pass seen in the flattened scope: line `k` of the
/// scope after the pass is line `k` of the scope before it, with every
/// token that is a label in sight of the line replaced by the literal of
/// the displacement from the line to the label's address. A label is in
/// sight of the lines of its scope and of the scopes nested in it, and
/// of no line outside its scope.
pub proof fn lemma_substituted_flat(tree: Tree, base: nat, outer: Map<Seq<char>, nat>, k: int)
    requires
        0 <= k < flat_len(tree),
    ensures
        flatten(tree).len() == flat_len(tree),
        flatten(substituted(tree, base, outer)).len() == flat_len(tree),
        flatten(substituted(tree, base, outer))[k] == relocated_line(
            flatten(tree)[k],
            sight(tree, base, outer, (base + k) as nat),
            (base + k) as nat,
        ),
    decreases tree,
{
    let env = outer.union_prefer_right(tree.symbols);
    lemma_flatten_len(tree);
    lemma_flatten_len(substituted(tree, base, outer));
    lemma_substituted_len(tree, base, outer);
    lemma_substituted_upto_count(tree.source, tree.source.len(), base, env);
    lemma_substituted_flat_upto(tree.source, tree.source.len(), base, env, k);
}

} // verus!
