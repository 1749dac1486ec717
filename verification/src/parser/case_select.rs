//! `case … esac` and `select … do … done`.
use vstd::prelude::*;
use crate::ast::{CasePattern, Node, NodeKind, Span};
use crate::error::Result;
use crate::lexer::char_len;
use crate::text::chars_of;
use crate::token::TokenType;
use super::helpers::{word_node, word_node_from_token};
use super::word_parts::decompose_with_fuel;
use super::{parser_same_source, Parser};

verus! {

/// The terminator a case clause records when a token of kind `k` ends it:
/// the spelling of `;;`, `;&` or `;;&`, and `;;` when another token ends
/// the clause.
pub open spec fn case_terminator_text(k: TokenType) -> Seq<char> {
    match k {
        TokenType::SemiAnd => seq![';', '&'],
        TokenType::SemiSemiAnd => seq![';', ';', '&'],
        _ => seq![';', ';'],
    }
}

/// A case clause ended by `;;`, `;&` or `;;&` records that operator as the
/// lexer spells it: reading the recorded terminator gives back the token
/// kind that ended the clause.
pub proof fn lemma_case_terminator_spelling(k: TokenType)
    requires
        k == TokenType::DoubleSemi || k == TokenType::SemiAnd || k == TokenType::SemiSemiAnd,
    ensures
        crate::lexer::operators::operator_kind(case_terminator_text(k)) == k,
{
}

impl Parser {
    /// `case word in pattern) body;; ... esac`
    pub fn parse_case(&mut self) -> (r: Result<Node>)
        requires
            old(self).lexer.wf(),
        ensures
            parser_same_source(*old(self), *final(self)),
            r is Ok ==> final(self).depth == old(self).depth,
            r is Ok ==> r->Ok_0.kind is Case,
        decreases old(self).lexer.fuel.budget,
    {
        self.lexer.tick()?;
        let start = self.peek_pos()?;
        self.expect(TokenType::Case)?;
        let word_tok = self.lexer.next_token()?;
        let cs = chars_of(word_tok.value.as_str());
        let parts = decompose_with_fuel(cs.as_slice(), word_tok.spans.as_slice(), &mut self.lexer.fuel)?;
        let end = word_tok.pos.saturating_add(char_len(&word_tok.value));
        let word = Box::new(Node::new(
            NodeKind::Word { parts, value: word_tok.value, spans: word_tok.spans },
            Span::new(self.lexer.byte_offset(word_tok.pos), self.lexer.byte_offset(end)),
        ));
        self.lexer.set_command_start();
        self.skip_newlines()?;
        self.expect(TokenType::In)?;
        self.skip_newlines()?;
        let mut patterns: Vec<CasePattern> = Vec::new();
        self.lexer.set_command_start();
        loop
            invariant
                parser_same_source(*old(self), *self),
                self.depth == old(self).depth,
                self.lexer.fuel.budget < old(self).lexer.fuel.budget,
            decreases self.lexer.fuel.budget,
        {
            self.lexer.tick()?;
            if self.peek_is(TokenType::Esac)? || self.at_end()? {
                break;
            }
            let p = self.parse_case_pattern()?;
            patterns.push(p);
            self.lexer.set_command_start();
            self.skip_newlines()?;
        }
        self.expect(TokenType::Esac)?;
        let redirects = self.parse_trailing_redirects()?;
        Ok(self.spanned(start, NodeKind::Case { word, patterns, redirects }))
    }

    /// One `pattern | pattern) body ;;` clause.
    pub fn parse_case_pattern(&mut self) -> (r: Result<CasePattern>)
        requires
            old(self).lexer.wf(),
        ensures
            parser_same_source(*old(self), *final(self)),
            r is Ok ==> final(self).depth == old(self).depth,
            r matches Ok(cp) ==> forall|i: int| 0 <= i < cp.patterns@.len() ==> (#[trigger] cp.patterns@[i]).kind is Word,
        decreases old(self).lexer.fuel.budget,
    {
        self.lexer.tick()?;
        if self.peek_is(TokenType::LeftParen)? {
            self.lexer.next_token()?;
        }
        let mut pattern_words: Vec<Node> = Vec::new();
        loop
            invariant
                parser_same_source(*old(self), *self),
                self.depth == old(self).depth,
                self.lexer.fuel.budget < old(self).lexer.fuel.budget,
                forall|i: int| 0 <= i < pattern_words@.len() ==> (#[trigger] pattern_words@[i]).kind is Word,
            decreases self.lexer.fuel.budget,
        {
            self.lexer.tick()?;
            let tok = self.lexer.next_token()?;
            if tok.kind == TokenType::RightParen || tok.kind == TokenType::Eof {
                break;
            }
            if tok.kind == TokenType::Pipe {
                continue;
            }
            let w = word_node_from_token(tok, &mut self.lexer.fuel)?;
            pattern_words.push(w);
        }
        self.skip_newlines()?;
        let body = if self.peek_is(TokenType::DoubleSemi)? || self.peek_is(TokenType::SemiAnd)?
            || self.peek_is(TokenType::SemiSemiAnd)? || self.peek_is(TokenType::Esac)? {
            None
        } else {
            Some(self.parse_list()?)
        };
        self.peek_kind()?;
        let terminator = self.case_terminator()?;
        Ok(CasePattern::new(pattern_words, body, terminator))
    }

    /// Reads the operator that ends a case clause and gives its spelling;
    /// `;;` when no such operator ends it.
    pub fn case_terminator(&mut self) -> (r: Result<String>)
        requires
            old(self).lexer.wf(),
        ensures
            parser_same_source(*old(self), *final(self)),
            final(self).depth == old(self).depth,
            r is Ok && old(self).lexer.peeked is Some
                ==> r->Ok_0@ == case_terminator_text(old(self).lexer.peeked->0.kind),
        decreases old(self).lexer.fuel.budget,
    {
        proof {
            reveal_strlit(";;");
            reveal_strlit(";&");
            reveal_strlit(";;&");
        }
        self.lexer.tick()?;
        let terminator = if self.peek_is(TokenType::DoubleSemi)? {
            self.lexer.next_token()?;
            ";;".to_string()
        } else if self.peek_is(TokenType::SemiAnd)? {
            self.lexer.next_token()?;
            ";&".to_string()
        } else if self.peek_is(TokenType::SemiSemiAnd)? {
            self.lexer.next_token()?;
            ";;&".to_string()
        } else {
            ";;".to_string()
        };
        Ok(terminator)
    }

    /// `select var [in words]; do ...; done`
    pub fn parse_select(&mut self) -> (r: Result<Node>)
        requires
            old(self).lexer.wf(),
        ensures
            parser_same_source(*old(self), *final(self)),
            r is Ok ==> final(self).depth == old(self).depth,
            r is Ok ==> r->Ok_0.kind is Select,
        decreases old(self).lexer.fuel.budget,
    {
        self.lexer.tick()?;
        let start = self.peek_pos()?;
        self.expect(TokenType::Select)?;
        let var_tok = self.lexer.next_token()?;
        let var = var_tok.value;
        self.lexer.set_command_start();
        self.skip_newlines()?;
        let words = if self.peek_is(TokenType::In)? {
            self.lexer.next_token()?;
            Some(self.parse_in_word_list()?)
        } else {
            Some(vec![word_node(&['"', '$', '@', '"'])])
        };
        if self.peek_is(TokenType::Semi)? || self.peek_is(TokenType::Newline)? {
            self.lexer.next_token()?;
        }
        self.skip_newlines()?;
        self.lexer.set_command_start();
        let (body, redirects) = self.parse_loop_body()?;
        Ok(self.spanned(start, NodeKind::Select { var, words, body: Box::new(body), redirects }))
    }
}

} // verus!
