//! Subshells, brace groups, functions, `coproc` and `(( … ))`.
use vstd::prelude::*;
use crate::ast::{Node, NodeKind};
use crate::error::Result;
use crate::token::{spec_starts_command, Token, TokenType};
use super::helpers::{is_fd_number, is_redirect_op_kind, word_node_from_token};
use super::{parser_same_source, Parser};

verus! {

/// True when `kind` can start the command of a `coproc`: it starts a
/// compound command and is not `coproc`, `time` or `!`.
pub fn coproc_starts_command(kind: TokenType) -> (r: bool)
    ensures
        r == (spec_starts_command(kind) && kind != TokenType::Coproc && kind != TokenType::Time
            && kind != TokenType::Bang),
{
    kind.starts_command() && !(kind == TokenType::Coproc || kind == TokenType::Time || kind == TokenType::Bang)
}

impl Parser {
    /// `( list )`
    pub fn parse_subshell(&mut self) -> (r: Result<Node>)
        requires
            old(self).lexer.wf(),
        ensures
            parser_same_source(*old(self), *final(self)),
            r is Ok ==> final(self).depth == old(self).depth,
            r is Ok ==> r->Ok_0.kind is Subshell,
        decreases old(self).lexer.fuel.budget,
    {
        self.lexer.tick()?;
        let start = self.peek_pos()?;
        self.expect(TokenType::LeftParen)?;
        self.skip_newlines()?;
        let body = self.parse_list()?;
        self.expect(TokenType::RightParen)?;
        let redirects = self.parse_trailing_redirects()?;
        Ok(self.spanned(start, NodeKind::Subshell { body: Box::new(body), redirects }))
    }

    /// `{ list; }`
    pub fn parse_brace_group(&mut self) -> (r: Result<Node>)
        requires
            old(self).lexer.wf(),
        ensures
            parser_same_source(*old(self), *final(self)),
            r is Ok ==> final(self).depth == old(self).depth,
            r is Ok ==> r->Ok_0.kind is BraceGroup,
            r is Ok ==> r->Ok_0.kind is BraceGroup,
        decreases old(self).lexer.fuel.budget,
    {
        self.lexer.tick()?;
        let start = self.peek_pos()?;
        self.expect(TokenType::LeftBrace)?;
        self.skip_newlines()?;
        let body = self.parse_list()?;
        self.expect_closing(TokenType::RightBrace, "}")?;
        let redirects = self.parse_trailing_redirects()?;
        Ok(self.spanned(start, NodeKind::BraceGroup { body: Box::new(body), redirects }))
    }

    /// `function name [()] body`
    pub fn parse_function(&mut self) -> (r: Result<Node>)
        requires
            old(self).lexer.wf(),
        ensures
            parser_same_source(*old(self), *final(self)),
            r is Ok ==> final(self).depth == old(self).depth,
            r is Ok ==> r->Ok_0.kind is Function,
        decreases old(self).lexer.fuel.budget,
    {
        self.lexer.tick()?;
        let start = self.peek_pos()?;
        self.expect(TokenType::Function)?;
        let name_tok = self.lexer.next_token()?;
        let name = name_tok.value;
        self.lexer.set_command_start();
        if self.peek_is(TokenType::LeftParen)? {
            self.lexer.next_token()?;
            if self.peek_is(TokenType::RightParen)? {
                self.lexer.next_token()?;
                self.lexer.set_command_start();
            } else {
                self.skip_newlines()?;
                let body = self.parse_list()?;
                self.expect(TokenType::RightParen)?;
                let redirects = self.parse_trailing_redirects()?;
                let sub = self.spanned(start, NodeKind::Subshell { body: Box::new(body), redirects });
                return Ok(self.spanned(start, NodeKind::Function { name, body: Box::new(sub) }));
            }
        }
        self.skip_newlines()?;
        let body = self.parse_command()?;
        Ok(self.spanned(start, NodeKind::Function { name, body: Box::new(body) }))
    }

    /// `name() body`, after the name has been read.
    pub fn parse_function_def(&mut self, name_tok: &Token) -> (r: Result<Node>)
        requires
            old(self).lexer.wf(),
        ensures
            parser_same_source(*old(self), *final(self)),
            r is Ok ==> final(self).depth == old(self).depth,
            r is Ok ==> r->Ok_0.kind is Function && r->Ok_0.kind->Function_name@ == name_tok.value@,
        decreases old(self).lexer.fuel.budget,
    {
        self.lexer.tick()?;
        let start = self.peek_pos()?;
        self.expect(TokenType::LeftParen)?;
        self.expect(TokenType::RightParen)?;
        self.lexer.set_command_start();
        self.skip_newlines()?;
        let body = self.parse_command()?;
        Ok(self.spanned(start, NodeKind::Function { name: name_tok.value.clone(), body: Box::new(body) }))
    }

    /// `coproc [NAME] command`
    pub fn parse_coproc(&mut self) -> (r: Result<Node>)
        requires
            old(self).lexer.wf(),
        ensures
            parser_same_source(*old(self), *final(self)),
            r is Ok ==> final(self).depth == old(self).depth,
            r is Ok ==> r->Ok_0.kind is Coproc,
        decreases old(self).lexer.fuel.budget,
    {
        self.lexer.tick()?;
        let start = self.peek_pos()?;
        self.expect(TokenType::Coproc)?;
        if coproc_starts_command(self.peek_kind()?) {
            return self.build_coproc_with_command(start, None);
        }
        let first_tok = self.lexer.next_token()?;
        self.lexer.set_command_start();
        if is_redirect_op_kind(first_tok.kind) {
            let rd = self.build_redirect(first_tok, -1, None)?;
            let mut redirects: Vec<Node> = vec![rd];
            let more = self.parse_trailing_redirects()?;
            let mut more = more;
            redirects.append(&mut more);
            return Ok(self.build_coproc_synthetic_command(start, None, Vec::new(), redirects));
        }
        if coproc_starts_command(self.peek_kind()?) {
            return self.build_coproc_with_command(start, Some(first_tok.value));
        }
        let (words, redirects) = self.parse_coproc_word_loop(first_tok)?;
        Ok(self.build_coproc_synthetic_command(start, None, words, redirects))
    }

    /// `coproc [NAME] CMD` where CMD starts a compound command.
    pub fn build_coproc_with_command(&mut self, start: usize, name: Option<String>) -> (r: Result<Node>)
        requires
            old(self).lexer.wf(),
        ensures
            parser_same_source(*old(self), *final(self)),
            r is Ok ==> final(self).depth == old(self).depth,
            r is Ok ==> r->Ok_0.kind is Coproc && r->Ok_0.kind->Coproc_name == name && r->Ok_0.span.start == crate::text::byte_pos(old(self).lexer.input@, start as int),
        decreases old(self).lexer.fuel.budget,
    {
        self.lexer.tick()?;
        let command = self.parse_command()?;
        Ok(self.spanned(start, NodeKind::Coproc { name, command: Box::new(command) }))
    }

    /// Words and redirections after `coproc WORD`.
    pub fn parse_coproc_word_loop(&mut self, first_tok: Token) -> (r: Result<(Vec<Node>, Vec<Node>)>)
        requires
            old(self).lexer.wf(),
        ensures
            parser_same_source(*old(self), *final(self)),
            r is Ok ==> final(self).depth == old(self).depth,
            r matches Ok((words, redirects)) ==> words@.len() >= 1 && words@[0].kind->Word_value == first_tok.value
                && (forall|i: int| 0 <= i < words@.len() ==> (#[trigger] words@[i]).kind is Word)
                && (forall|i: int| 0 <= i < redirects@.len() ==> (#[trigger] redirects@[i]).kind is Redirect || redirects@[i].kind is HereDoc),
        decreases old(self).lexer.fuel.budget,
    {
        self.lexer.tick()?;
        let ghost first_value = first_tok.value;
        let w = word_node_from_token(first_tok, &mut self.lexer.fuel)?;
        let mut words: Vec<Node> = vec![w];
        let mut redirects: Vec<Node> = Vec::new();
        loop
            invariant
                parser_same_source(*old(self), *self),
                self.depth == old(self).depth,
                self.lexer.fuel.budget < old(self).lexer.fuel.budget,
                words@.len() >= 1 && words@[0].kind->Word_value == first_value,
                forall|i: int| 0 <= i < words@.len() ==> (#[trigger] words@[i]).kind is Word,
                forall|i: int| 0 <= i < redirects@.len() ==> (#[trigger] redirects@[i]).kind is Redirect || redirects@[i].kind is HereDoc,
            decreases self.lexer.fuel.budget,
        {
            self.lexer.tick()?;
            if self.at_end()? {
                break;
            }
            if self.is_redirect_operator()? {
                let rd = self.parse_redirect()?;
                redirects.push(rd);
                continue;
            }
            let k = self.peek_kind()?;
            if !(k == TokenType::Word || k == TokenType::Number) {
                break;
            }
            let tok = self.lexer.next_token()?;
            if is_fd_number(&tok.value) && self.is_redirect_operator()? {
                let rd = self.parse_redirect_with_fd(&tok)?;
                redirects.push(rd);
            } else {
                let w = word_node_from_token(tok, &mut self.lexer.fuel)?;
                words.push(w);
            }
        }
        Ok((words, redirects))
    }

    /// A nameless `coproc` around a synthetic simple command.
    pub fn build_coproc_synthetic_command(
        &self,
        start: usize,
        name: Option<String>,
        words: Vec<Node>,
        redirects: Vec<Node>,
    ) -> (r: Node)
        ensures
            r.kind is Coproc,
    {
        let command = self.spanned(start, NodeKind::Command { assignments: Vec::new(), words, redirects });
        self.spanned(start, NodeKind::Coproc { name, command: Box::new(command) })
    }

    /// `(( expression ))`, kept as raw text.
    pub fn parse_arith_command(&mut self) -> (r: Result<Node>)
        requires
            old(self).lexer.wf(),
        ensures
            parser_same_source(*old(self), *final(self)),
            final(self).depth == old(self).depth,
            r is Ok ==> r->Ok_0.kind is ArithmeticCommand,
        decreases old(self).lexer.fuel.budget,
    {
        self.lexer.tick()?;
        let start = self.peek_pos()?;
        self.expect(TokenType::LeftParen)?;
        self.expect(TokenType::LeftParen)?;
        let content = self.lexer.read_until_double_paren()?;
        let redirects = self.parse_trailing_redirects()?;
        Ok(self.spanned(start, NodeKind::ArithmeticCommand { expression: None, redirects, raw_content: content }))
    }
}

} // verus!
