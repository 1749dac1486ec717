//! `while`, `until`, `for` (word list and C style) and loop bodies.
use vstd::prelude::*;
use crate::ast::{Node, NodeKind};
use crate::error::Result;
use crate::text::{chars_of, string_from_chars};
use crate::token::TokenType;
use super::helpers::word_node;
use super::{parser_same_source, Parser};

verus! {

/// One clause of a C-style `for` header: leading whitespace removed, and
/// `1` when nothing is left.
pub fn default_empty(s: &[char]) -> (r: String)
    ensures
        exists|i: int|
            #![trigger s@.subrange(i, s@.len() as int)]
            0 <= i <= s@.len()
            && (forall|k: int| 0 <= k < i ==> crate::text::is_whitespace(#[trigger] s@[k]))
            && (i < s@.len() ==> !crate::text::is_whitespace(s@[i]))
            && r@ == (if i == s@.len() { seq!['1'] } else { s@.subrange(i, s@.len() as int) }),
{
    let mut i: usize = 0;
    while i < s.len() && crate::text::whitespace(s[i])
        invariant
            i <= s@.len(),
            forall|k: int| 0 <= k < i ==> crate::text::is_whitespace(#[trigger] s@[k]),
        decreases s.len() - i,
    {
        i = i + 1;
    }
    let r = if i == s.len() {
        let one: Vec<char> = vec!['1'];
        string_from_chars(one.as_slice())
    } else {
        match crate::text::slice_chars(s, i, s.len()) {
            Some(v) => string_from_chars(v.as_slice()),
            None => String::new(),
        }
    };
    assert(r@ == (if i == s@.len() { seq!['1'] } else { s@.subrange(i as int, s@.len() as int) }));
    assert(s@.subrange(i as int, s@.len() as int) == s@.subrange(i as int, s@.len() as int));
    r
}

/// Splits `raw` at its first two `;` into at most three pieces.
pub fn split_three(raw: &[char]) -> (r: Vec<Vec<char>>)
    ensures
        1 <= r@.len() <= 3,
{
    let mut parts: Vec<Vec<char>> = Vec::new();
    let mut cur: Vec<char> = Vec::new();
    let mut i: usize = 0;
    while i < raw.len()
        invariant
            parts@.len() <= 2,
        decreases raw.len() - i,
    {
        let c = raw[i];
        if c == ';' && parts.len() < 2 {
            parts.push(cur);
            cur = Vec::new();
        } else {
            cur.push(c);
        }
        i = i + 1;
    }
    parts.push(cur);
    parts
}

impl Parser {
    /// `while`/`until` loops.
    pub fn parse_while_until(&mut self, keyword: TokenType, is_while: bool) -> (r: Result<Node>)
        requires
            old(self).lexer.wf(),
        ensures
            parser_same_source(*old(self), *final(self)),
            r is Ok ==> final(self).depth == old(self).depth,
            r is Ok ==> (if is_while { r->Ok_0.kind is While } else { r->Ok_0.kind is Until }),
        decreases old(self).lexer.fuel.budget,
    {
        self.lexer.tick()?;
        let start = self.peek_pos()?;
        self.expect(keyword)?;
        self.skip_newlines()?;
        let condition = self.parse_list()?;
        self.lexer.set_command_start();
        self.expect(TokenType::Do)?;
        self.skip_newlines()?;
        let body = self.parse_list()?;
        self.expect(TokenType::Done)?;
        let redirects = self.parse_trailing_redirects()?;
        let condition = Box::new(condition);
        let body = Box::new(body);
        if is_while {
            Ok(self.spanned(start, NodeKind::While { condition, body, redirects }))
        } else {
            Ok(self.spanned(start, NodeKind::Until { condition, body, redirects }))
        }
    }

    /// `for var [in words]; do ...; done` or C-style `for ((...))`.
    pub fn parse_for(&mut self) -> (r: Result<Node>)
        requires
            old(self).lexer.wf(),
        ensures
            parser_same_source(*old(self), *final(self)),
            r is Ok ==> final(self).depth == old(self).depth,
            r is Ok ==> r->Ok_0.kind is For || r->Ok_0.kind is ForArith,
            r is Ok && r->Ok_0.kind is For ==> r->Ok_0.kind->For_words is Some
                && forall|i: int| 0 <= i < r->Ok_0.kind->For_words->0@.len()
                    ==> (#[trigger] r->Ok_0.kind->For_words->0@[i]).kind is Word,
        decreases old(self).lexer.fuel.budget,
    {
        self.lexer.tick()?;
        let start = self.peek_pos()?;
        self.expect(TokenType::For)?;
        if self.peek_is(TokenType::LeftParen)? {
            return self.parse_for_arith();
        }
        let var_tok = self.lexer.next_token()?;
        let var = var_tok.value;
        self.lexer.set_command_start();
        self.skip_newlines()?;
        let words = if self.peek_is(TokenType::In)? {
            self.lexer.next_token()?;
            Some(self.parse_in_word_list()?)
        } else {
            Some(vec![word_node(&['"', '$', '@', '"'])])
        };
        if self.peek_is(TokenType::Semi)? || self.peek_is(TokenType::Newline)? {
            self.lexer.next_token()?;
        }
        self.skip_newlines()?;
        self.lexer.set_command_start();
        let (body, redirects) = self.parse_loop_body()?;
        Ok(self.spanned(start, NodeKind::For { var, words, body: Box::new(body), redirects }))
    }

    /// `for (( init; cond; incr ))` loops.
    pub fn parse_for_arith(&mut self) -> (r: Result<Node>)
        requires
            old(self).lexer.wf(),
        ensures
            parser_same_source(*old(self), *final(self)),
            r is Ok ==> final(self).depth == old(self).depth,
            r is Ok ==> r->Ok_0.kind is ForArith,
        decreases old(self).lexer.fuel.budget,
    {
        self.lexer.tick()?;
        let start = self.peek_pos()?;
        self.expect(TokenType::LeftParen)?;
        self.expect(TokenType::LeftParen)?;
        let raw = self.lexer.read_until_double_paren()?;
        let raw_chars = chars_of(raw.as_str());
        let parts = split_three(raw_chars.as_slice());
        let empty: Vec<char> = Vec::new();
        let init = default_empty(parts[0].as_slice());
        let cond = if parts.len() > 1 { default_empty(parts[1].as_slice()) } else { default_empty(empty.as_slice()) };
        let incr = if parts.len() > 2 { default_empty(parts[2].as_slice()) } else { default_empty(empty.as_slice()) };
        self.skip_newlines()?;
        if self.peek_is(TokenType::Semi)? || self.peek_is(TokenType::Newline)? {
            self.lexer.next_token()?;
        }
        self.skip_newlines()?;
        self.lexer.set_command_start();
        let (body, redirects) = self.parse_loop_body()?;
        Ok(self.spanned(start, NodeKind::ForArith { init, cond, incr, body: Box::new(body), redirects }))
    }

    /// A loop body: `do ... done` or a brace group.
    pub fn parse_loop_body(&mut self) -> (r: Result<(Node, Vec<Node>)>)
        requires
            old(self).lexer.wf(),
        ensures
            parser_same_source(*old(self), *final(self)),
            r is Ok ==> final(self).depth == old(self).depth,
            r matches Ok((_, redirects)) ==> forall|i: int| 0 <= i < redirects@.len()
                ==> (#[trigger] redirects@[i]).kind is Redirect || redirects@[i].kind is HereDoc,
        decreases old(self).lexer.fuel.budget,
    {
        self.lexer.tick()?;
        if self.peek_is(TokenType::LeftBrace)? {
            let bg = self.parse_brace_group()?;
            let redirects = self.parse_trailing_redirects()?;
            let Node { kind, span } = bg;
            match kind {
                NodeKind::BraceGroup { body, redirects: _ } => Ok((*body, redirects)),
                other => Ok((Node { kind: other, span }, redirects)),
            }
        } else {
            self.expect(TokenType::Do)?;
            self.skip_newlines()?;
            let body = self.parse_list()?;
            self.expect(TokenType::Done)?;
            let redirects = self.parse_trailing_redirects()?;
            Ok((body, redirects))
        }
    }
}

} // verus!
