//! Source lines and the entries of a scope.

use crate::lex::{tokenize, tokens_of};
use crate::scope::Scope;
use vstd::prelude::*;

verus! {

/// One line of a source file.
#[derive(Clone, Debug)]
pub struct Line {
    /// The number of the line in its file, for diagnostics.
    pub number: usize,
    /// The text of the line as it was read.
    pub text: String,
    /// The tokens of the line.
    pub tokens: Vec<String>,
}

/// What a line holds.
pub struct LineView {
    /// The number of the line in its file.
    pub number: usize,
    /// The characters of the line.
    pub text: Seq<char>,
    /// The tokens of the line.
    pub tokens: Seq<Seq<char>>,
}

impl View for Line {
    type V = LineView;

    open spec fn view(&self) -> LineView {
        LineView { number: self.number, text: self.text@, tokens: self.tokens.deep_view() }
    }
}

/// What the lines of `lines` hold, in order.
pub open spec fn views(lines: Seq<Line>) -> Seq<LineView> {
    Seq::new(lines.len(), |i: int| lines[i]@)
}

/// An entry of a scope: a line, or a scope nested in it.
#[derive(Debug)]
pub enum Source {
    /// A line of source.
    Line(Line),
    /// A nested scope.
    Scope(Scope),
}

/// Copies a sequence of tokens.
pub fn copy_tokens(tokens: &Vec<String>) -> (out: Vec<String>)
    ensures
        out.deep_view() == tokens.deep_view(),
{
    let mut out: Vec<String> = Vec::new();
    let mut i: usize = 0;
    while i < tokens.len()
        invariant
            i <= tokens.len(),
            out.len() == i,
            forall|k: int| 0 <= k < i ==> out@[k]@ == tokens@[k]@,
        decreases tokens.len() - i,
    {
        out.push(tokens[i].clone());
        i += 1;
    }
    assert(out.deep_view() =~= tokens.deep_view());
    out
}

impl Line {
    /// The line of number `number` and text `text`, split into its
    /// tokens. A line without tokens has none.
    pub fn new(number: usize, text: String) -> (line: Line)
        ensures
            line@ == (LineView { number, text: text@, tokens: tokens_of(text@) }),
    {
        let tokens = match tokenize(text.as_str()) {
            Some(tokens) => tokens,
            None => {
                let none: Vec<String> = Vec::new();
                assert(none.deep_view() =~= tokens_of(text@));
                none
            },
        };
        Line { number, text, tokens }
    }

    /// A copy of the line.
    pub fn duplicate(&self) -> (line: Line)
        ensures
            line@ == self@,
    {
        Line { number: self.number, text: self.text.clone(), tokens: copy_tokens(&self.tokens) }
    }
}

} // verus!
