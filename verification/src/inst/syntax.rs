//! The syntax that the instructions share: the count of their tokens and
//! the shape of their operands.

use crate::inst::ParseInstructionError;
use crate::inst::operand::{ImmKind, Op2};
use crate::lex::{reg_of_chars, reg_value};
use crate::text::{lowercase, lowered, rows, spells};
use vstd::prelude::*;
use vstd::string::*;

verus! {

/// The tokens with ASCII capital letters made small.
pub open spec fn lowered_tokens(tokens: Seq<Seq<char>>) -> Seq<Seq<char>> {
    Seq::new(tokens.len(), |i: int| lowered(tokens[i]))
}

/// The characters of each token, with ASCII capital letters made small.
pub fn lower_tokens(tokens: &Vec<String>) -> (r: Vec<Vec<char>>)
    ensures
        rows(r@) == lowered_tokens(tokens.deep_view()),
{
    let mut r: Vec<Vec<char>> = Vec::new();
    let mut i: usize = 0;
    while i < tokens.len()
        invariant
            i <= tokens.len(),
            r.len() == i,
            forall|k: int| 0 <= k < i ==> (#[trigger] r@[k])@ == lowered(tokens@[k]@),
        decreases tokens.len() - i,
    {
        r.push(lowercase(tokens[i].as_str()));
        i += 1;
    }
    assert(rows(r@) =~= lowered_tokens(tokens.deep_view()));
    r
}

/// What the tokens `t[1]`, `t[2]`, `t[3]` of an instruction with two
/// operands denote: a register below sixteen, a comma, and an operand that
/// fits the field that `kind` names.
pub open spec fn operands_spec(t: Seq<Seq<char>>, kind: ImmKind) -> Result<
    (u16, Op2),
    ParseInstructionError,
>
    recommends
        t.len() == 4,
{
    match reg_value(t[1]) {
        None => Err(ParseInstructionError::InvalidOp),
        Some(op1) => if t[2] != ","@ {
            Err(ParseInstructionError::ExpectedSep)
        } else {
            match Op2::parse_spec(t[3]) {
                None => Err(ParseInstructionError::InvalidOp),
                Some(op2) => if op1 < 16 && op2.fits(kind) {
                    Ok((op1, op2))
                } else {
                    Err(ParseInstructionError::InvalidOp)
                },
            }
        },
    }
}

/// Reads the two operands of an instruction from its tokens.
pub fn parse_operands(t: &Vec<Vec<char>>, kind: ImmKind) -> (r: Result<
    (u16, Op2),
    ParseInstructionError,
>)
    requires
        t.len() == 4,
    ensures
        r == operands_spec(rows(t@), kind),
{
    let op1 = match reg_of_chars(&t[1]) {
        Some(op1) => op1,
        None => {
            return Err(ParseInstructionError::InvalidOp);
        },
    };
    if !spells(&t[2], ",") {
        return Err(ParseInstructionError::ExpectedSep);
    }
    let op2 = match Op2::of_chars(&t[3]) {
        Some(op2) => op2,
        None => {
            return Err(ParseInstructionError::InvalidOp);
        },
    };
    if op1 < 16 && op2.check(kind) {
        Ok((op1, op2))
    } else {
        Err(ParseInstructionError::InvalidOp)
    }
}

/// What the token `t[1]` of a load or a store denotes: a register below
/// sixteen.
pub open spec fn first_reg_spec(t: Seq<Seq<char>>) -> Result<u16, ParseInstructionError>
    recommends
        t.len() >= 2,
{
    match reg_value(t[1]) {
        None => Err(ParseInstructionError::InvalidOp),
        Some(op1) => if op1 < 16 {
            Ok(op1)
        } else {
            Err(ParseInstructionError::InvalidOp)
        },
    }
}

/// Reads the first operand of a load or a store from its tokens.
pub fn parse_first_reg(t: &Vec<Vec<char>>) -> (r: Result<u16, ParseInstructionError>)
    requires
        t.len() >= 2,
    ensures
        r == first_reg_spec(rows(t@)),
{
    match reg_of_chars(&t[1]) {
        None => Err(ParseInstructionError::InvalidOp),
        Some(op1) => if op1 < 16 {
            Ok(op1)
        } else {
            Err(ParseInstructionError::InvalidOp)
        },
    }
}

/// What the tokens `t[2]`, `t[3]` of a load or a store denote: a comma,
/// and a register below sixteen or a displacement that fits.
pub open spec fn address_spec(t: Seq<Seq<char>>) -> Result<Op2, ParseInstructionError>
    recommends
        t.len() == 4,
{
    if t[2] != ","@ {
        Err(ParseInstructionError::ExpectedSep)
    } else {
        match Op2::parse_spec(t[3]) {
            None => Err(ParseInstructionError::InvalidOp),
            Some(op2) => if op2.fits(ImmKind::Relative) {
                Ok(op2)
            } else {
                Err(ParseInstructionError::InvalidOp)
            },
        }
    }
}

/// Reads the address operand of a load or a store from its tokens.
pub fn parse_address(t: &Vec<Vec<char>>) -> (r: Result<Op2, ParseInstructionError>)
    requires
        t.len() == 4,
    ensures
        r == address_spec(rows(t@)),
        r matches Ok(op2) ==> op2.wf(),
{
    if !spells(&t[2], ",") {
        return Err(ParseInstructionError::ExpectedSep);
    }
    match Op2::of_chars(&t[3]) {
        None => Err(ParseInstructionError::InvalidOp),
        Some(op2) => if op2.check(ImmKind::Relative) {
            Ok(op2)
        } else {
            Err(ParseInstructionError::InvalidOp)
        },
    }
}

/// The error that an instruction of `n` tokens gives where it has
/// `count` of them.
pub open spec fn count_spec(count: nat, n: nat) -> Option<ParseInstructionError> {
    if count == 0 {
        Some(ParseInstructionError::EmptyStr)
    } else if count < n {
        Some(ParseInstructionError::MissingOps)
    } else if count > n {
        Some(ParseInstructionError::ExtraOps)
    } else {
        None
    }
}

/// Checks that an instruction of `n` tokens has `count` of them.
pub fn check_count(count: usize, n: usize) -> (r: Option<ParseInstructionError>)
    ensures
        r == count_spec(count as nat, n as nat),
{
    if count == 0 {
        Some(ParseInstructionError::EmptyStr)
    } else if count < n {
        Some(ParseInstructionError::MissingOps)
    } else if count > n {
        Some(ParseInstructionError::ExtraOps)
    } else {
        None
    }
}

} // verus!
