//! `if`/`elif`/`else`/`fi` and `[[ … ]]` conditional expressions.
use vstd::prelude::*;
use crate::ast::{Node, NodeKind, Span};
use crate::error::Result;
use crate::lexer::char_len;
use crate::text::{chars_of, string_is};
use crate::token::{Token, TokenType};
use super::helpers::{cond_term_from_token, is_cond_binary_op};
use super::{looked, parser_same_source, ready, Parser};
use crate::format::nodes::cond_source;

verus! {

/// A node of a `[[ ]]` expression: a connective or a test.
pub open spec fn spec_is_cond_node(n: Node) -> bool {
    ||| n.kind is CondOr || n.kind is CondAnd || n.kind is CondNot || n.kind is CondParen
    ||| n.kind is UnaryTest || n.kind is BinaryTest
}

impl Parser {
    /// `if ...; then ...; [elif ...;] [else ...;] fi`
    pub fn parse_if(&mut self) -> (r: Result<Node>)
        requires
            old(self).lexer.wf(),
        ensures
            parser_same_source(*old(self), *final(self)),
            r is Ok ==> final(self).depth == old(self).depth,
            r is Ok ==> r->Ok_0.kind is If,
        decreases old(self).lexer.fuel.budget,
    {
        self.lexer.tick()?;
        let start = self.peek_pos()?;
        self.expect(TokenType::If)?;
        self.skip_newlines()?;
        let condition = self.parse_list()?;
        self.expect(TokenType::Then)?;
        self.skip_newlines()?;
        let then_body = self.parse_list()?;
        let else_body = if self.peek_is(TokenType::Elif)? {
            Some(Box::new(self.parse_elif()?))
        } else if self.peek_is(TokenType::Else)? {
            self.lexer.next_token()?;
            self.skip_newlines()?;
            Some(Box::new(self.parse_list()?))
        } else {
            None
        };
        self.expect(TokenType::Fi)?;
        let redirects = self.parse_trailing_redirects()?;
        Ok(self.spanned(start, NodeKind::If {
            condition: Box::new(condition),
            then_body: Box::new(then_body),
            else_body,
            redirects,
        }))
    }

    /// An `elif` branch, as a nested `if` without redirections.
    pub fn parse_elif(&mut self) -> (r: Result<Node>)
        requires
            old(self).lexer.wf(),
        ensures
            parser_same_source(*old(self), *final(self)),
            r is Ok ==> final(self).depth == old(self).depth,
            r is Ok ==> r->Ok_0.kind is If && r->Ok_0.kind->If_redirects@.len() == 0,
        decreases old(self).lexer.fuel.budget,
    {
        self.lexer.tick()?;
        let start = self.peek_pos()?;
        self.enter()?;
        self.expect(TokenType::Elif)?;
        self.skip_newlines()?;
        let condition = self.parse_list()?;
        self.expect(TokenType::Then)?;
        self.skip_newlines()?;
        let then_body = self.parse_list()?;
        let else_body = if self.peek_is(TokenType::Elif)? {
            Some(Box::new(self.parse_elif()?))
        } else if self.peek_is(TokenType::Else)? {
            self.lexer.next_token()?;
            self.skip_newlines()?;
            Some(Box::new(self.parse_list()?))
        } else {
            None
        };
        self.leave();
        Ok(self.spanned(start, NodeKind::If {
            condition: Box::new(condition),
            then_body: Box::new(then_body),
            else_body,
            redirects: Vec::new(),
        }))
    }

    /// `[[ expr ]]`
    pub fn parse_cond_command(&mut self) -> (r: Result<Node>)
        requires
            old(self).lexer.wf(),
        ensures
            parser_same_source(*old(self), *final(self)),
            r is Ok ==> final(self).depth == old(self).depth,
            r is Ok ==> r->Ok_0.kind is ConditionalExpr,
        decreases old(self).lexer.fuel.budget,
    {
        self.lexer.tick()?;
        let start = self.peek_pos()?;
        self.expect(TokenType::DoubleLeftBracket)?;
        self.lexer.enter_cond_expr();
        let body = self.parse_cond_or()?;
        self.lexer.leave_cond_expr();
        self.expect_closing(TokenType::DoubleRightBracket, "]]")?;
        let redirects = self.parse_trailing_redirects()?;
        Ok(self.spanned(start, NodeKind::ConditionalExpr { body: Box::new(body), redirects }))
    }

    /// `a || b` inside `[[ ]]`.
    pub fn parse_cond_or(&mut self) -> (r: Result<Node>)
        requires
            old(self).lexer.wf(),
        ensures
            r is Ok ==> cond_source(r->Ok_0) is Some,
            parser_same_source(*old(self), *final(self)),
            r is Ok ==> final(self).depth == old(self).depth,
            r is Ok ==> spec_is_cond_node(r->Ok_0),
        decreases old(self).lexer.fuel.budget,
    {
        self.lexer.tick()?;
        let mut left = self.parse_cond_and()?;
        loop
            invariant
                parser_same_source(*old(self), *self),
                self.depth == old(self).depth,
                spec_is_cond_node(left),
                cond_source(left) is Some,
                self.lexer.fuel.budget < old(self).lexer.fuel.budget,
            decreases self.lexer.fuel.budget,
        {
            self.lexer.tick()?;
            if self.is_cond_close()? || !self.peek_is(TokenType::Or)? {
                break;
            }
            self.lexer.next_token()?;
            let right = self.parse_cond_and()?;
            let span = Span::new(left.span.start, right.span.end);
            left = Node::new(NodeKind::CondOr { left: Box::new(left), right: Box::new(right) }, span);
        }
        Ok(left)
    }

    /// `a && b` inside `[[ ]]`.
    pub fn parse_cond_and(&mut self) -> (r: Result<Node>)
        requires
            old(self).lexer.wf(),
        ensures
            r is Ok ==> cond_source(r->Ok_0) is Some,
            parser_same_source(*old(self), *final(self)),
            r is Ok ==> final(self).depth == old(self).depth,
            r is Ok ==> spec_is_cond_node(r->Ok_0) && !(r->Ok_0.kind is CondOr),
        decreases old(self).lexer.fuel.budget,
    {
        self.lexer.tick()?;
        let mut left = self.parse_cond_primary()?;
        loop
            invariant
                parser_same_source(*old(self), *self),
                self.depth == old(self).depth,
                spec_is_cond_node(left) && !(left.kind is CondOr),
                cond_source(left) is Some,
                self.lexer.fuel.budget < old(self).lexer.fuel.budget,
            decreases self.lexer.fuel.budget,
        {
            self.lexer.tick()?;
            if self.is_cond_close()? || !self.peek_is(TokenType::And)? {
                break;
            }
            self.lexer.next_token()?;
            let right = self.parse_cond_primary()?;
            let span = Span::new(left.span.start, right.span.end);
            left = Node::new(NodeKind::CondAnd { left: Box::new(left), right: Box::new(right) }, span);
        }
        Ok(left)
    }

    /// `! expr`, `( expr )`, or a test.
    pub fn parse_cond_primary(&mut self) -> (r: Result<Node>)
        requires
            old(self).lexer.wf(),
        ensures
            r is Ok ==> cond_source(r->Ok_0) is Some,
            parser_same_source(*old(self), *final(self)),
            r is Ok ==> final(self).depth == old(self).depth,
            r is Ok ==> r->Ok_0.kind is CondNot || r->Ok_0.kind is CondParen || r->Ok_0.kind is UnaryTest || r->Ok_0.kind is BinaryTest,
        decreases old(self).lexer.fuel.budget,
    {
        self.lexer.tick()?;
        let start = self.peek_pos()?;
        let kind = self.peek_kind()?;
        if kind == TokenType::Bang {
            self.lexer.next_token()?;
            let inner = self.parse_cond_primary()?;
            return Ok(self.spanned(start, NodeKind::CondNot { operand: Box::new(inner) }));
        }
        if kind == TokenType::LeftParen {
            self.lexer.next_token()?;
            let inner = self.parse_cond_or()?;
            self.expect(TokenType::RightParen)?;
            return Ok(self.spanned(start, NodeKind::CondParen { inner: Box::new(inner) }));
        }
        let first = self.lexer.next_token()?;
        self.parse_cond_operand(start, first)
    }

    /// `-f x` (unary), `a OP b` (binary), or a bare word (an implicit `-n`).
    pub fn parse_cond_operand(&mut self, start: usize, first: Token) -> (r: Result<Node>)
        requires
            old(self).lexer.wf(),
        ensures
            r is Ok ==> cond_source(r->Ok_0) is Some,
            parser_same_source(*old(self), *final(self)),
            r is Ok ==> final(self).depth == old(self).depth,
            r is Ok ==> (r->Ok_0.kind is UnaryTest || r->Ok_0.kind is BinaryTest) && r->Ok_0.span.start == crate::text::byte_pos(old(self).lexer.input@, start as int),
        decreases old(self).lexer.fuel.budget,
    {
        self.lexer.tick()?;
        let fv = chars_of(first.value.as_str());
        if fv.len() > 0 && fv[0] == '-' && char_len(&first.value) <= 3 && self.peek_cond_term()? {
            let operand_tok = self.lexer.next_token()?;
            let operand = cond_term_from_token(operand_tok);
            assert(cond_source(operand) is Some);
            return Ok(self.spanned(start, NodeKind::UnaryTest {
                op: first.value,
                operand: Box::new(operand),
            }));
        }
        if !self.is_cond_close()? && !self.peek_is(TokenType::And)? && !self.peek_is(TokenType::Or)? {
            let op_tok = self.lexer.peek_token()?;
            let is_binary = is_cond_binary_op(&op_tok.value) || op_tok.kind == TokenType::Less
                || op_tok.kind == TokenType::Greater;
            if is_binary {
                let op = self.lexer.next_token()?;
                let right = self.lexer.next_token()?;
                let l = cond_term_from_token(first);
                let r = cond_term_from_token(right);
                assert(cond_source(l) is Some && cond_source(r) is Some);
                return Ok(self.spanned(start, NodeKind::BinaryTest {
                    op: op.value,
                    left: Box::new(l),
                    right: Box::new(r),
                }));
            }
        }
        let operand = cond_term_from_token(first);
        assert(cond_source(operand) is Some);
        Ok(self.spanned(start, NodeKind::UnaryTest {
            op: "-n".to_string(),
            operand: Box::new(operand),
        }))
    }

    /// True when the next token is `]]`.
    pub fn is_cond_close(&mut self) -> (r: Result<bool>)
        requires
            old(self).lexer.wf(),
        ensures
            parser_same_source(*old(self), *final(self)),
            final(self).depth == old(self).depth,
            r is Ok ==> final(self).lexer.peeked is Some && (r->Ok_0 <==> (final(self).lexer.peeked->0.kind == TokenType::DoubleRightBracket || (final(self).lexer.peeked->0.kind == TokenType::Word && final(self).lexer.peeked->0.value@ == "]]"@))),
            ready(*old(self), 3) ==> r is Ok && looked(*old(self), *final(self), 3),
        decreases old(self).lexer.fuel.budget,
    {
        self.lexer.tick()?;
        let tok = self.lexer.peek_token()?;
        Ok(tok.kind == TokenType::DoubleRightBracket || (tok.kind == TokenType::Word && string_is(&tok.value, "]]")))
    }

    /// True when a term (not `]]`, `&&` or `||`) follows.
    pub fn peek_cond_term(&mut self) -> (r: Result<bool>)
        requires
            old(self).lexer.wf(),
        ensures
            parser_same_source(*old(self), *final(self)),
            final(self).depth == old(self).depth,
            r is Ok ==> final(self).lexer.peeked is Some && (r->Ok_0 <==> !(final(self).lexer.peeked->0.kind == TokenType::DoubleRightBracket || (final(self).lexer.peeked->0.kind == TokenType::Word && final(self).lexer.peeked->0.value@ == "]]"@) || final(self).lexer.peeked->0.kind == TokenType::And || final(self).lexer.peeked->0.kind == TokenType::Or)),
            ready(*old(self), 7) ==> r is Ok && looked(*old(self), *final(self), 7),
        decreases old(self).lexer.fuel.budget,
    {
        self.lexer.tick()?;
        if self.is_cond_close()? {
            return Ok(false);
        }
        let k = self.peek_kind()?;
        Ok(!(k == TokenType::And || k == TokenType::Or))
    }
}

} // verus!
