//! Command dispatch and simple commands.
use vstd::prelude::*;
use crate::ast::{Node, NodeKind, Span};
use crate::error::{RableError, Result};
use crate::lexer::char_len;
use crate::text::chars_of;
use crate::token::TokenType;
use super::helpers::{is_fd_number, is_varfd};
use super::word_parts::decompose_with_fuel;
use super::{parser_same_source, Parser, MAX_DEPTH};
use super::plain::{
    command_of, fuel_for, lemma_peeked_first, lemma_words_end, lemma_words_end_bound, plain_ready, read_command,
    spent_on, toks, word_first, words_end,
};
use crate::lexer::stream::{plain_tok_of, PlainTok};

verus! {

impl Parser {
    /// A command, one nesting level deeper.
    pub fn parse_command(&mut self) -> (r: Result<Node>)
        requires
            old(self).lexer.wf(),
        ensures
            parser_same_source(*old(self), *final(self)),
            r is Ok ==> final(self).depth == old(self).depth,
            word_first(*old(self)) && fuel_for(*old(self), 64, 24) && old(self).depth < MAX_DEPTH
                ==> r is Ok && read_command(*old(self), *final(self), r->Ok_0, 64, 24),
        decreases old(self).lexer.fuel.budget,
    {
        self.lexer.tick()?;
        self.enter()?;
        let result = self.parse_command_inner();
        self.leave();
        result
    }

    /// Dispatches on the next token to a compound or simple command.
    pub fn parse_command_inner(&mut self) -> (r: Result<Node>)
        requires
            old(self).lexer.wf(),
        ensures
            parser_same_source(*old(self), *final(self)),
            r is Ok ==> final(self).depth == old(self).depth,
            word_first(*old(self)) && fuel_for(*old(self), 64, 22)
                ==> r is Ok && read_command(*old(self), *final(self), r->Ok_0, 64, 22),
        decreases old(self).lexer.fuel.budget,
    {
        proof {
            if word_first(*old(self)) {
                lemma_peeked_first(*old(self));
            }
        }
        self.lexer.tick()?;
        let kind = self.peek_kind()?;
        match kind {
            TokenType::If => self.parse_if(),
            TokenType::While => self.parse_while_until(TokenType::While, true),
            TokenType::Until => self.parse_while_until(TokenType::Until, false),
            TokenType::For => self.parse_for(),
            TokenType::Case => self.parse_case(),
            TokenType::Select => self.parse_select(),
            TokenType::LeftParen => {
                if self.lexer.pos() < self.lexer.input_len() && self.lexer.pos() + 1 < self.lexer.input_len()
                    && self.is_double_paren()? {
                    let cp = self.lexer.checkpoint();
                    match self.parse_arith_command() {
                        Ok(node) => Ok(node),
                        Err(e) => {
                            if e.is_matched_pair() && cp.pos <= self.lexer.input_len() {
                                self.lexer.restore(cp);
                                self.parse_subshell()
                            } else {
                                Err(e)
                            }
                        }
                    }
                } else {
                    self.parse_subshell()
                }
            }
            TokenType::LeftBrace => self.parse_brace_group(),
            TokenType::Function => self.parse_function(),
            TokenType::Coproc => self.parse_coproc(),
            TokenType::DoubleLeftBracket => self.parse_cond_command(),
            TokenType::Fi | TokenType::Done | TokenType::Esac => {
                let tok = self.lexer.peek_token()?;
                let mut m = "unexpected reserved word '".to_string();
                m.append(tok.value.as_str());
                m.append("'");
                Err(RableError::parse(m.as_str(), tok.pos, tok.line))
            }
            _ => self.parse_simple_command(),
        }
    }

    /// A simple command: words and redirections. Leading assignment words
    /// stay among the words, in order; the `assignments` field is left
    /// empty.
    pub fn parse_simple_command(&mut self) -> (r: Result<Node>)
        requires
            old(self).lexer.wf(),
        ensures
            parser_same_source(*old(self), *final(self)),
            r is Ok ==> final(self).depth == old(self).depth,
            r is Ok ==> r->Ok_0.kind is Command || r->Ok_0.kind is Empty || r->Ok_0.kind is Function,
            r is Ok && r->Ok_0.kind is Command ==> {
                let k = r->Ok_0.kind;
                &&& k->Command_assignments@.len() == 0
                &&& k->Command_words@.len() + k->Command_redirects@.len() > 0
                &&& forall|i: int| 0 <= i < k->Command_words@.len() ==> (#[trigger] k->Command_words@[i]).kind is Word
                &&& forall|i: int| 0 <= i < k->Command_redirects@.len()
                    ==> (#[trigger] k->Command_redirects@[i]).kind is Redirect || k->Command_redirects@[i].kind is HereDoc
            },
            plain_ready(*old(self)) && toks(*old(self)).len() > 0 && toks(*old(self))[0] is Word && fuel_for(*old(self), 64, 16)
                ==> r is Ok && command_of(r->Ok_0, toks(*old(self)), 0, words_end(toks(*old(self)), 0))
                    && plain_ready(*final(self))
                    && toks(*final(self)) == toks(*old(self)).subrange(words_end(toks(*old(self)), 0), toks(*old(self)).len() as int)
                    && spent_on(*old(self), *final(self), 64, 16)
                    && (final(self).lexer.pos > old(self).lexer.pos || toks(*final(self)).len() == 0),
        decreases old(self).lexer.fuel.budget,
    {
        let ghost pl = plain_ready(*old(self)) && toks(*old(self)).len() > 0 && toks(*old(self))[0] is Word
            && fuel_for(*old(self), 64, 16);
        let ghost t0 = toks(*old(self));
        let ghost jj = words_end(t0, 0);
        proof {
            if pl {
                lemma_words_end_bound(t0, 0);
                lemma_words_end(t0, 0, 0);
            }
        }
        self.lexer.tick()?;
        let start = self.peek_pos()?;
        let assignments: Vec<Node> = Vec::new();
        let mut leading_assignments: usize = 0;
        let mut words: Vec<Node> = Vec::new();
        let mut redirects: Vec<Node> = Vec::new();
        let mut saw_command_word = false;
        loop
            invariant_except_break
                pl ==> self.lexer.fuel.budget + (self.lexer.pos - old(self).lexer.pos) + 64 * words@.len() + 5
                    >= old(self).lexer.fuel.budget,
            invariant
                parser_same_source(*old(self), *self),
                self.depth == old(self).depth,
                self.lexer.fuel.budget < old(self).lexer.fuel.budget,
                assignments@.len() == 0,
                forall|i: int| 0 <= i < words@.len() ==> (#[trigger] words@[i]).kind is Word,
                forall|i: int| 0 <= i < redirects@.len() ==> (#[trigger] redirects@[i]).kind is Redirect || redirects@[i].kind is HereDoc,
                pl == (plain_ready(*old(self)) && toks(*old(self)).len() > 0 && toks(*old(self))[0] is Word
                    && fuel_for(*old(self), 64, 16)),
                t0 == toks(*old(self)),
                jj == words_end(t0, 0),
                pl ==> plain_ready(*self) && words@.len() <= jj && jj <= t0.len()
                    && toks(*self) == t0.subrange(words@.len() as int, t0.len() as int)
                    && redirects@.len() == 0 && leading_assignments == 0 && saw_command_word == (words@.len() > 0)
                    && old(self).lexer.pos <= self.lexer.pos
                    && (words@.len() > 0 && toks(*self).len() > 0 ==> self.lexer.pos > old(self).lexer.pos)
                    && (forall|i: int| 0 <= i < words@.len() ==> #[trigger] words@[i].kind->Word_value@ == t0[i]->Word_0),
            ensures
                parser_same_source(*old(self), *self),
                self.depth == old(self).depth,
                assignments@.len() == 0,
                forall|i: int| 0 <= i < words@.len() ==> (#[trigger] words@[i]).kind is Word,
                forall|i: int| 0 <= i < redirects@.len() ==> (#[trigger] redirects@[i]).kind is Redirect || redirects@[i].kind is HereDoc,
                pl ==> plain_ready(*self) && words@.len() == jj
                    && toks(*self) == t0.subrange(jj, t0.len() as int)
                    && redirects@.len() == 0
                    && old(self).lexer.pos <= self.lexer.pos
                    && (toks(*self).len() > 0 ==> self.lexer.pos > old(self).lexer.pos)
                    && (forall|i: int| 0 <= i < words@.len() ==> #[trigger] words@[i].kind->Word_value@ == t0[i]->Word_0)
                    && self.lexer.fuel.budget + (self.lexer.pos - old(self).lexer.pos) + 64 * words@.len() + 16
                        >= old(self).lexer.fuel.budget,
            decreases self.lexer.fuel.budget,
        {
            proof {
                if pl {
                    lemma_words_end(t0, 0, words@.len() as int);
                    lemma_peeked_first(*self);
                }
            }
            self.lexer.tick()?;
            if self.at_end()? {
                proof {
                    if pl {
                        lemma_peeked_first(*self);
                        assert(toks(*self).len() == 0);
                        lemma_words_end_bound(t0, 0);
                    }
                }
                break;
            }
            let kind = self.peek_kind()?;
            proof {
                if pl {
                    lemma_peeked_first(*self);
                    assert(toks(*self).len() > 0);
                    assert(toks(*self)[0] == t0[words@.len() as int]);
                    assert(kind == TokenType::Word || kind == TokenType::Semi || kind == TokenType::Pipe
                        || kind == TokenType::Newline);
                    if kind == TokenType::Word {
                        lemma_words_end_bound(t0, words@.len() as int + 1);
                        assert(words@.len() < jj);
                    } else {
                        assert(!(toks(*self)[0] is Word));
                        assert(words_end(t0, words@.len() as int) == words@.len());
                    }
                }
            }
            if super::helpers::is_redirect_op_kind(kind) {
                let rd = self.parse_redirect()?;
                redirects.push(rd);
            } else if kind == TokenType::Word || kind == TokenType::AssignmentWord || kind == TokenType::Number {
                let is_assignment = kind == TokenType::AssignmentWord;
                let tok = self.lexer.next_token()?;
                proof {
                    if pl {
                        assert(plain_tok_of(tok) == t0[words@.len() as int]);
                        assert(tok.value@ == t0[words@.len() as int]->Word_0);
                        assert(toks(*self) =~= t0.subrange(words@.len() as int + 1, t0.len() as int));
                    }
                }
                let adjacent = match self.lexer.peek_token() {
                    Ok(next) => tok.adjacent_to(next),
                    Err(e) => return Err(e),
                };
                if adjacent && is_fd_number(&tok.value) && self.is_redirect_operator()? && !self.is_and_redirect()? {
                    let rd = self.parse_redirect_with_fd(&tok)?;
                    redirects.push(rd);
                } else if adjacent && is_varfd(&tok.value) && self.is_redirect_operator()? {
                    let rd = self.parse_redirect()?;
                    redirects.push(rd);
                } else {
                    if !saw_command_word && leading_assignments == 0 && words.len() == 0
                        && self.peek_is(TokenType::LeftParen)? {
                        return self.parse_function_def(&tok);
                    }
                    let end = tok.pos.saturating_add(char_len(&tok.value));
                    let word_span = Span::new(self.lexer.byte_offset(tok.pos), self.lexer.byte_offset(end));
                    let cs = chars_of(tok.value.as_str());
                    let parts = decompose_with_fuel(cs.as_slice(), tok.spans.as_slice(), &mut self.lexer.fuel)?;
                    let node = Node::new(NodeKind::Word { value: tok.value, parts, spans: tok.spans }, word_span);
                    if is_assignment && !saw_command_word {
                        words.push(node);
                        leading_assignments = leading_assignments.saturating_add(1);
                    } else {
                        saw_command_word = true;
                        words.push(node);
                    }
                }
            } else {
                break;
            }
        }
        proof {
            if pl {
                lemma_words_end_bound(t0, 1);
                assert(words@.len() >= 1);
            }
        }
        if words.len() == 0 && redirects.len() == 0 {
            return Ok(self.spanned(start, NodeKind::Empty));
        }
        Ok(self.spanned(start, NodeKind::Command { assignments, words, redirects }))
    }
}

} // verus!
