//! The lexer: splitting a source line into tokens, and reading register
//! names and immediate literals.

use crate::text::{chars_of, digits_value, parse_digits, spells, string_of};
use vstd::prelude::*;
use vstd::string::*;

verus! {

/// Why a token could not be read.
#[derive(Debug)]
pub enum LexemeError {
    /// The token is empty.
    EmptyToken,
    /// The token names no register.
    InvalidReg(String),
    /// The token is no immediate literal.
    InvalidImm(String),
}

impl LexemeError {
    /// The text of the error, as shown to the user.
    pub open spec fn message_spec(self) -> Seq<char> {
        match self {
            LexemeError::EmptyToken => "Found empty token; expected content"@,
            LexemeError::InvalidReg(token) => "Could not parse register from `"@ + token@ + "`"@,
            LexemeError::InvalidImm(token) => "Could not parse immediate from `"@ + token@ + "`"@,
        }
    }

    /// The text of the error, as shown to the user.
    pub fn message(&self) -> (s: String)
        ensures
            s@ == self.message_spec(),
    {
        match self {
            LexemeError::EmptyToken => String::from_str("Found empty token; expected content"),
            LexemeError::InvalidReg(token) => {
                String::from_str("Could not parse register from `").concat(token.as_str()).concat(
                    "`",
                )
            },
            LexemeError::InvalidImm(token) => {
                String::from_str("Could not parse immediate from `").concat(token.as_str()).concat(
                    "`",
                )
            },
        }
    }
}

/// The number that `digits` denotes in base `radix`, where it is a
/// non-empty run of digits of that base and fits in a word.
pub open spec fn word_value(digits: Seq<char>, radix: nat) -> Option<u16> {
    if digits.len() == 0 {
        None
    } else {
        match digits_value(digits, radix) {
            Some(n) => if n <= 0xffff {
                Some(n as u16)
            } else {
                None
            },
            None => None,
        }
    }
}

/// The register that `token` names: `sp`, `lr` and `pc` are registers 13,
/// 14 and 15; `r` followed by a decimal number names the register of that
/// number.
pub open spec fn reg_value(token: Seq<char>) -> Option<u16> {
    if token == "sp"@ {
        Some(13u16)
    } else if token == "lr"@ {
        Some(14u16)
    } else if token == "pc"@ {
        Some(15u16)
    } else if token.len() > 0 && token[0] == 'r' {
        word_value(token.skip(1), 10)
    } else {
        None
    }
}

/// The base that the second character of an immediate literal selects.
pub open spec fn radix_of(c: char) -> Option<nat> {
    if c == 'b' {
        Some(2nat)
    } else if c == 'o' {
        Some(8nat)
    } else if c == 'd' {
        Some(10nat)
    } else if c == 'x' {
        Some(16nat)
    } else {
        None
    }
}

/// The value of the immediate literal `token`: a `0`, a letter that
/// selects the base (`b`, `o`, `d`, `x`), then the digits.
pub open spec fn imm_value(token: Seq<char>) -> Option<u16> {
    if token.len() >= 2 && token[0] == '0' {
        match radix_of(token[1]) {
            Some(radix) => word_value(token.skip(2), radix),
            None => None,
        }
    } else {
        None
    }
}

/// Reads a register name from the characters of a token.
pub fn reg_of_chars(token: &Vec<char>) -> (r: Option<u16>)
    ensures
        r == reg_value(token@),
{
    if spells(token, "sp") {
        Some(13)
    } else if spells(token, "lr") {
        Some(14)
    } else if spells(token, "pc") {
        Some(15)
    } else if token.len() > 0 && token[0] == 'r' {
        parse_digits(token, 1, 10)
    } else {
        None
    }
}

/// Reads an immediate literal from the characters of a token.
pub fn imm_of_chars(token: &Vec<char>) -> (r: Option<u16>)
    ensures
        r == imm_value(token@),
{
    if token.len() >= 2 && token[0] == '0' {
        let c = token[1];
        if c == 'b' {
            parse_digits(token, 2, 2)
        } else if c == 'o' {
            parse_digits(token, 2, 8)
        } else if c == 'd' {
            parse_digits(token, 2, 10)
        } else if c == 'x' {
            parse_digits(token, 2, 16)
        } else {
            None
        }
    } else {
        None
    }
}

/// Reads a register name: `r<N>`, or one of the aliases `sp`, `lr`, `pc`.
pub fn parse_reg(token: &str) -> (r: Result<u16, LexemeError>)
    ensures
        match r {
            Ok(n) => reg_value(token@) == Some(n),
            Err(e) => reg_value(token@).is_none() && (e matches LexemeError::InvalidReg(t) && t@
                == token@),
        },
{
    let chars = chars_of(token);
    match reg_of_chars(&chars) {
        Some(n) => Ok(n),
        None => Err(LexemeError::InvalidReg(String::from_str(token))),
    }
}

/// Reads an immediate literal: `0b`, `0o`, `0d` or `0x`, then digits.
pub fn parse_imm(token: &str) -> (r: Result<u16, LexemeError>)
    ensures
        match r {
            Ok(n) => imm_value(token@) == Some(n),
            Err(e) => imm_value(token@).is_none() && (e matches LexemeError::InvalidImm(t) && t@
                == token@),
        },
{
    let chars = chars_of(token);
    match imm_of_chars(&chars) {
        Some(n) => Ok(n),
        None => Err(LexemeError::InvalidImm(String::from_str(token))),
    }
}

/// Whether `c` is white space, as `char::is_whitespace` tells: the
/// characters that Unicode gives the property `White_Space`.
pub uninterp spec fn white_space(c: char) -> bool;

/// `char::is_whitespace` tells whether a character has the Unicode
/// property `White_Space`. Its answer is named [`white_space`].
pub assume_specification[ char::is_whitespace ](c: char) -> (b: bool)
    ensures
        b == white_space(c),
;

/// The pieces into which the regular expression `pattern` splits `text`,
/// as `Regex::split` of the crate `regex` yields them; `None` where
/// `Regex::new` does not accept the pattern.
pub uninterp spec fn regex_split(pattern: Seq<char>, text: Seq<char>) -> Option<Seq<Seq<char>>>;

/// Compiles `pattern` with `regex::Regex::new` and splits `text` with
/// `Regex::split`. The contract only names the pieces: they are
/// [`regex_split`] of the pattern and the text.
#[verifier::external_body]
fn split_by_pattern(pattern: &str, text: &str) -> (r: Option<Vec<String>>)
    ensures
        match r {
            Some(parts) => regex_split(pattern@, text@) == Some(parts.deep_view()),
            None => regex_split(pattern@, text@).is_none(),
        },
{
    match regex::Regex::new(pattern) {
        Ok(re) => Some(re.split(text).map(String::from).collect()),
        Err(_) => None,
    }
}

/// The words of a line: its longest runs of characters that are not
/// white space, in order.
pub open spec fn words(line: Seq<char>) -> Seq<Seq<char>>
    decreases line.len(),
{
    if line.len() == 0 {
        seq![]
    } else {
        let rest = words(line.drop_last());
        let c = line.last();
        if white_space(c) {
            rest
        } else if line.len() >= 2 && !white_space(line[line.len() - 2]) {
            rest.drop_last().push(rest.last().push(c))
        } else {
            rest.push(seq![c])
        }
    }
}

/// The pieces of `parts` that are not empty, in order.
pub open spec fn nonempty(parts: Seq<Seq<char>>) -> Seq<Seq<char>>
    decreases parts.len(),
{
    if parts.len() == 0 {
        seq![]
    } else if parts.last().len() > 0 {
        nonempty(parts.drop_last()).push(parts.last())
    } else {
        nonempty(parts.drop_last())
    }
}

/// The tokens of one word: the pieces between its word boundaries that
/// are not empty. (Were the pattern of a word boundary not accepted, the
/// word would be one token.)
pub open spec fn pieces(word: Seq<char>) -> Seq<Seq<char>> {
    match regex_split("\\b"@, word) {
        Some(parts) => nonempty(parts),
        None => seq![word],
    }
}

/// The tokens of a sequence of words, in order.
pub open spec fn split_all(ws: Seq<Seq<char>>) -> Seq<Seq<char>>
    decreases ws.len(),
{
    if ws.len() == 0 {
        seq![]
    } else {
        split_all(ws.drop_last()) + pieces(ws.last())
    }
}

/// The tokens before the first token `;`, which begins a comment.
pub open spec fn before_comment(tokens: Seq<Seq<char>>) -> Seq<Seq<char>>
    decreases tokens.len(),
{
    if tokens.len() == 0 {
        seq![]
    } else {
        let rest = before_comment(tokens.drop_last());
        if rest.len() == tokens.len() - 1 && tokens.last() != ";"@ {
            rest.push(tokens.last())
        } else {
            rest
        }
    }
}

/// The tokens of a line: its words, split at word boundaries, up to the
/// first `;`.
pub open spec fn tokens_of(line: Seq<char>) -> Seq<Seq<char>> {
    before_comment(split_all(words(line)))
}

/// Splits a line into its words at white space.
pub fn split_whitespace(line: &str) -> (out: Vec<String>)
    ensures
        out.deep_view() == words(line@),
{
    let chars = chars_of(line);
    let mut out: Vec<String> = Vec::new();
    let mut cur: Vec<char> = Vec::new();
    let mut i: usize = 0;
    assert(chars@.take(0) =~= Seq::<char>::empty());
    assert(out.deep_view() =~= Seq::<Seq<char>>::empty());
    while i < chars.len()
        invariant
            i <= chars.len(),
            chars@ == line@,
            (cur.len() > 0) <==> (i > 0 && !white_space(chars@[i - 1])),
            words(chars@.take(i as int)) == (if cur.len() > 0 {
                out.deep_view().push(cur@)
            } else {
                out.deep_view()
            }),
        decreases chars.len() - i,
    {
        let c = chars[i];
        let ghost done = out.deep_view();
        let ghost prefix = chars@.take(i + 1);
        proof {
            assert(prefix.drop_last() =~= chars@.take(i as int));
            assert(prefix.last() == c);
            if i > 0 {
                assert(prefix[prefix.len() - 2] == chars@[i - 1]);
            }
        }
        if c.is_whitespace() {
            if cur.len() > 0 {
                out.push(string_of(&cur));
                assert(out.deep_view() =~= done.push(cur@));
                cur = Vec::new();
            }
        } else {
            let ghost pending = cur@;
            cur.push(c);
            proof {
                if pending.len() > 0 {
                    let rest = done.push(pending);
                    assert(rest.drop_last() =~= done);
                    assert(rest.last() == pending);
                    assert(words(prefix) == done.push(pending.push(c)));
                } else {
                    assert(cur@ =~= seq![c]);
                    assert(words(prefix) == done.push(seq![c]));
                }
            }
        }
        i += 1;
    }
    assert(chars@.take(i as int) =~= chars@);
    if cur.len() > 0 {
        let ghost done = out.deep_view();
        out.push(string_of(&cur));
        assert(out.deep_view() =~= done.push(cur@));
    }
    out
}

/// Keeps the pieces that are not empty.
pub fn keep_nonempty(parts: &Vec<String>) -> (out: Vec<String>)
    ensures
        out.deep_view() == nonempty(parts.deep_view()),
{
    let mut out: Vec<String> = Vec::new();
    let mut i: usize = 0;
    assert(parts.deep_view().take(0) =~= Seq::<Seq<char>>::empty());
    assert(out.deep_view() =~= Seq::<Seq<char>>::empty());
    while i < parts.len()
        invariant
            i <= parts.len(),
            out.deep_view() == nonempty(parts.deep_view().take(i as int)),
        decreases parts.len() - i,
    {
        let ghost done = out.deep_view();
        let ghost prefix = parts.deep_view().take(i + 1);
        proof {
            assert(prefix.drop_last() =~= parts.deep_view().take(i as int));
            assert(prefix.last() == parts@[i as int]@);
        }
        if parts[i].as_str().unicode_len() > 0 {
            out.push(parts[i].clone());
            assert(out.deep_view() =~= done.push(parts@[i as int]@));
        }
        i += 1;
    }
    assert(parts.deep_view().take(i as int) =~= parts.deep_view());
    out
}

/// Splits one word into its tokens at word boundaries.
pub fn split_word(word: &str) -> (out: Vec<String>)
    ensures
        out.deep_view() == pieces(word@),
{
    match split_by_pattern("\\b", word) {
        Some(parts) => keep_nonempty(&parts),
        None => {
            let mut out: Vec<String> = Vec::new();
            out.push(String::from_str(word));
            assert(out.deep_view() =~= seq![word@]);
            out
        },
    }
}

/// Cuts a sequence of tokens before the first `;`.
pub fn strip_comment(tokens: &Vec<String>) -> (out: Vec<String>)
    ensures
        out.deep_view() == before_comment(tokens.deep_view()),
{
    let mut out: Vec<String> = Vec::new();
    let mut i: usize = 0;
    let mut open = true;
    assert(tokens.deep_view().take(0) =~= Seq::<Seq<char>>::empty());
    assert(out.deep_view() =~= Seq::<Seq<char>>::empty());
    while i < tokens.len()
        invariant
            i <= tokens.len(),
            out.deep_view() == before_comment(tokens.deep_view().take(i as int)),
            open <==> out.len() == i,
            out.len() <= i,
        decreases tokens.len() - i,
    {
        let ghost done = out.deep_view();
        let ghost prefix = tokens.deep_view().take(i + 1);
        proof {
            assert(prefix.drop_last() =~= tokens.deep_view().take(i as int));
            assert(prefix.last() == tokens@[i as int]@);
        }
        if open {
            let token = chars_of(tokens[i].as_str());
            if spells(&token, ";") {
                open = false;
            } else {
                out.push(tokens[i].clone());
                assert(out.deep_view() =~= done.push(tokens@[i as int]@));
            }
        }
        i += 1;
    }
    assert(tokens.deep_view().take(i as int) =~= tokens.deep_view());
    out
}

/// Splits a line of source text into its tokens: the words between white
/// space, split again at word boundaries, so that a comma or a colon
/// next to a name is a token of its own, and cut before the first token
/// `;`. `None` where no token is left.
pub fn tokenize(line: &str) -> (r: Option<Vec<String>>)
    ensures
        match r {
            Some(tokens) => tokens.deep_view() == tokens_of(line@) && tokens.len() > 0,
            None => tokens_of(line@).len() == 0,
        },
{
    let ws = split_whitespace(line);
    let mut all: Vec<String> = Vec::new();
    let mut i: usize = 0;
    assert(ws.deep_view().take(0) =~= Seq::<Seq<char>>::empty());
    assert(all.deep_view() =~= Seq::<Seq<char>>::empty());
    while i < ws.len()
        invariant
            i <= ws.len(),
            all.deep_view() == split_all(ws.deep_view().take(i as int)),
        decreases ws.len() - i,
    {
        let ghost prefix = ws.deep_view().take(i + 1);
        proof {
            assert(prefix.drop_last() =~= ws.deep_view().take(i as int));
            assert(prefix.last() == ws@[i as int]@);
        }
        let mut parts = split_word(ws[i].as_str());
        let ghost before = all.deep_view();
        let ghost added = parts.deep_view();
        all.append(&mut parts);
        assert(all.deep_view() =~= before + added);
        i += 1;
    }
    assert(ws.deep_view().take(i as int) =~= ws.deep_view());
    let tokens = strip_comment(&all);
    if tokens.len() == 0 {
        None
    } else {
        Some(tokens)
    }
}

/// A word of a line has a character.
pub proof fn lemma_words_nonempty(line: Seq<char>, i: int)
    requires
        0 <= i < words(line).len(),
    ensures
        words(line)[i].len() > 0,
    decreases line.len(),
{
    if line.len() > 0 {
        let rest = words(line.drop_last());
        let c = line.last();
        if white_space(c) {
            lemma_words_nonempty(line.drop_last(), i);
        } else if line.len() >= 2 && !white_space(line[line.len() - 2]) {
            lemma_words_last(line.drop_last());
            if i < rest.len() - 1 {
                lemma_words_nonempty(line.drop_last(), i);
            }
        } else {
            if i < rest.len() {
                lemma_words_nonempty(line.drop_last(), i);
            }
        }
    }
}

/// A line that ends in a character that is not white space has a word.
pub proof fn lemma_words_last(line: Seq<char>)
    requires
        line.len() > 0,
        !white_space(line.last()),
    ensures
        words(line).len() > 0,
{
}

/// The pieces that are kept have a character.
pub proof fn lemma_nonempty(parts: Seq<Seq<char>>, i: int)
    requires
        0 <= i < nonempty(parts).len(),
    ensures
        nonempty(parts)[i].len() > 0,
    decreases parts.len(),
{
    if parts.len() > 0 {
        if i < nonempty(parts.drop_last()).len() {
            lemma_nonempty(parts.drop_last(), i);
        }
    }
}

/// The tokens of words that have a character have a character.
pub proof fn lemma_split_all_nonempty(ws: Seq<Seq<char>>, i: int)
    requires
        forall|k: int| 0 <= k < ws.len() ==> (#[trigger] ws[k]).len() > 0,
        0 <= i < split_all(ws).len(),
    ensures
        split_all(ws)[i].len() > 0,
    decreases ws.len(),
{
    if ws.len() > 0 {
        let head = split_all(ws.drop_last());
        if i < head.len() {
            lemma_split_all_nonempty(ws.drop_last(), i);
        } else {
            match regex_split("\\b"@, ws.last()) {
                Some(parts) => {
                    lemma_nonempty(parts, i - head.len());
                },
                None => {},
            }
        }
    }
}

/// The tokens before a comment are the first of the tokens, and none of
/// them is `;`.
pub proof fn lemma_before_comment(tokens: Seq<Seq<char>>, i: int)
    requires
        0 <= i < before_comment(tokens).len(),
    ensures
        before_comment(tokens).len() <= tokens.len(),
        before_comment(tokens)[i] == tokens[i],
        before_comment(tokens)[i] != ";"@,
    decreases tokens.len(),
{
    if tokens.len() > 0 {
        let rest = before_comment(tokens.drop_last());
        if rest.len() > 0 {
            lemma_before_comment(tokens.drop_last(), 0);
        }
        if i < rest.len() {
            lemma_before_comment(tokens.drop_last(), i);
        }
    }
}

/// No token of a line is empty, and none is the `;` of a comment.
pub proof fn lemma_tokens_nonempty(line: Seq<char>, i: int)
    requires
        0 <= i < tokens_of(line).len(),
    ensures
        tokens_of(line)[i].len() > 0,
        tokens_of(line)[i] != ";"@,
{
    let ws = words(line);
    assert forall|k: int| 0 <= k < ws.len() implies (#[trigger] ws[k]).len() > 0 by {
        lemma_words_nonempty(line, k);
    }
    lemma_before_comment(split_all(ws), i);
    lemma_split_all_nonempty(ws, i);
}

} // verus!
