//! Parser for bash arithmetic expressions (the body of `$((...))` / `((...))`).
use vstd::prelude::*;
use crate::ast::{Node, NodeKind};
use crate::error::{RableError, Result};
use crate::text::{chars_of, is_whitespace};
use self::parser::ArithParser;
use self::tokenizer::tokenize;

pub mod parser;
pub mod tokenizer;

verus! {

/// Maximum nesting of parenthesised groups, subscripts and ternary branches.
pub const MAX_ARITH_DEPTH: usize = 32;

/// A non-empty run of decimal digits.
pub open spec fn decimal_literal(s: Seq<char>) -> bool {
    s.len() > 0 && forall|i: int| 0 <= i < s.len() ==> '0' <= #[trigger] s[i] <= '9'
}

/// Parses a bash arithmetic expression from its inner text.
pub fn parse_arith_expression(source: &str) -> (r: Result<Node>)
    ensures
        r is Ok ==> crate::sexp::model::sexp_text(r->Ok_0) is Some,
        (forall|i: int| 0 <= i < source@.len() ==> is_whitespace(#[trigger] source@[i])) ==> (r matches Ok(n)
            && n.kind is ArithEmpty),
        decimal_literal(crate::text::trim(source@)) ==> (r is Ok && r->Ok_0.kind is ArithNumber
            && r->Ok_0.kind->ArithNumber_value@ == crate::text::trim(source@)),
{
    let cs = chars_of(source);
    parse_arith_chars(cs.as_slice())
}

/// Parses a bash arithmetic expression given as characters.
pub fn parse_arith_chars(source: &[char]) -> (r: Result<Node>)
    ensures
        r is Ok ==> crate::sexp::model::sexp_text(r->Ok_0) is Some,
        (forall|i: int| 0 <= i < source@.len() ==> is_whitespace(#[trigger] source@[i])) ==> (r matches Ok(n)
            && n.kind is ArithEmpty),
        decimal_literal(crate::text::trim(source@)) ==> (r is Ok && r->Ok_0.kind is ArithNumber
            && r->Ok_0.kind->ArithNumber_value@ == crate::text::trim(source@)),
{
    let trimmed = trim(source);
    if trimmed.len() == 0 {
        return Ok(mk(NodeKind::ArithEmpty));
    }
    let tokens = tokenize(trimmed.as_slice())?;
    let mut parser = ArithParser::new(tokens);
    proof {
        if decimal_literal(crate::text::trim(source@)) {
            assert(self::parser::operand_then(parser.tokens@, 0));
            assert(self::parser::additive_chain(parser.tokens@, 0));
        }
    }
    let expr = parser.parse_expression()?;
    if !parser.at_end() {
        return Err(err("trailing tokens in arithmetic expression"));
    }
    Ok(expr)
}

/// The characters of `s` without leading and trailing white space.
pub fn trim(s: &[char]) -> (r: Vec<char>)
    ensures
        r@ == crate::text::trim(s@),
        (forall|i: int| 0 <= i < s@.len() ==> is_whitespace(#[trigger] s@[i])) ==> r@.len() == 0,
{
    let n = s.len();
    let a = crate::text::skip_ws_forward(s, 0, n);
    let b = crate::text::skip_ws_backward(s, a, n);
    assert(s@.subrange(0, n as int) =~= s@);
    let r = match crate::text::slice_chars(s, a, b) {
        Some(v) => v,
        None => Vec::new(),
    };
    proof {
        if forall|i: int| 0 <= i < s@.len() ==> is_whitespace(#[trigger] s@[i]) {
            if a < n {
                assert(is_whitespace(s@[a as int]));
                lemma_trim_start_stops(s@, a as int);
            }
        }
    }
    r
}

/// After `skip_ws_forward`, a remaining character is not white space.
proof fn lemma_trim_start_stops(s: Seq<char>, a: int)
    requires
        0 <= a < s.len(),
        crate::text::trim_start(s) == s.subrange(a, s.len() as int),
    ensures
        !is_whitespace(s[a]),
{
    crate::text::lemma_trim_start_first(s);
    assert(s.subrange(a, s.len() as int)[0] == s[a]);
}

/// A node with an empty span.
pub fn mk(kind: NodeKind) -> (r: Node)
    ensures
        r.kind == kind,
{
    Node::empty(kind)
}

/// An arithmetic syntax error (positions are those of the inner text).
pub fn err(msg: &str) -> (r: RableError)
    ensures
        r is Parse,
{
    RableError::parse(msg, 0, 1)
}

} // verus!
