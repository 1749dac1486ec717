//! Lists (`;`, newline), background (`&`), and/or (`&&`, `||`) and
//! pipelines (`|`, `|&`, `!`, `time`).
use vstd::prelude::*;
use crate::ast::{ListItem, ListOperator, Node, NodeKind, PipeSep, Span};
use crate::error::Result;
use crate::text::string_is;
use crate::token::TokenType;
use super::helpers::{add_stderr_redirect, make_stderr_redirect, word_node_from_token};
use super::{looked, parser_same_source, ready, Parser, MAX_DEPTH};
use super::plain::{
    closes_group, command_of, fuel_for, lemma_command_shift, lemma_list_step, lemma_peeked_first, lemma_pipe_end,
    lemma_pipe_line_ok, lemma_pipe_shift, lemma_pipe_step, lemma_words_end_bound, lemma_words_end_shift, list_ok,
    list_end, list_starts, pipe_count, pipe_end, pipe_line, pipe_ok, pipe_start, pipeline_of, plain_ready, read_all, read_command,
    read_to, semi_list_of, spent_on, toks, word_first, words_end,
};

verus! {

/// The binary list node `left op right`.
pub fn make_list(left: Node, op: ListOperator, right: Node) -> (r: Node)
    ensures
        r.kind is List,
        r.kind->List_items@.len() == 2,
        r.kind->List_items@[0].operator == Some(op),
        r.kind->List_items@[1].operator is None,
        r.kind->List_items@[0].command == left,
        r.kind->List_items@[1].command == right,
        r.span.start == left.span.start,
        r.span.end == right.span.end,
{
    let span = Span::new(left.span.start, right.span.end);
    Node::new(
        NodeKind::List {
            items: vec![
                ListItem { command: left, operator: Some(op) },
                ListItem { command: right, operator: None },
            ],
        },
        span,
    )
}

/// The list node `left op` with nothing after the operator.
pub fn make_trailing(left: Node, op: ListOperator, end: usize) -> (r: Node)
    ensures
        r.kind is List,
        r.kind->List_items@.len() == 1,
        r.kind->List_items@[0].operator == Some(op),
        r.span.start == left.span.start,
        r.span.end == end,
{
    let span = Span::new(left.span.start, end);
    Node::new(NodeKind::List { items: vec![ListItem { command: left, operator: Some(op) }] }, span)
}

impl Parser {
    /// Like `parse_list` but stops at newlines: each top-level line becomes
    /// its own node.
    pub fn parse_top_level_list(&mut self) -> (r: Result<Node>)
        requires
            old(self).lexer.wf(),
        ensures
            parser_same_source(*old(self), *final(self)),
            r is Ok ==> final(self).depth == old(self).depth,
            plain_ready(*old(self)) && list_ok(toks(*old(self)), 0) && fuel_for(*old(self), 128, 68)
                && old(self).depth + 1 < MAX_DEPTH
                ==> r is Ok && semi_list_of(r->Ok_0, toks(*old(self)), list_starts(toks(*old(self)), 0))
                    && read_to(*old(self), *final(self), list_end(toks(*old(self)), 0), 128, 68),
        decreases old(self).lexer.fuel.budget,
    {
        let ghost pl = plain_ready(*old(self)) && list_ok(toks(*old(self)), 0) && fuel_for(*old(self), 128, 68)
            && old(self).depth + 1 < MAX_DEPTH;
        let ghost t0 = toks(*old(self));
        let ghost ss = list_starts(t0, 0);
        proof {
            if pl {
                lemma_list_step(t0, 0, 0);
                assert(t0.subrange(0, t0.len() as int) =~= t0);
            }
        }
        self.lexer.tick()?;
        self.enter()?;
        let mut left = self.parse_background_inner(true)?;
        let ghost mut k: int = 1;
        proof {
            if pl {
                assert(ss.subrange(0, 1) =~= seq![0int]);
            }
        }
        loop
            invariant_except_break
                pl ==> plain_ready(*self) && 1 <= k <= ss.len()
                    && semi_list_of(left, t0, ss.subrange(0, k))
                    && toks(*self) == t0.subrange(pipe_end(t0, ss[k - 1]), t0.len() as int)
                    && spent_on(*old(self), *self, 128, 61)
                    && (toks(*self).len() > 0 ==> self.lexer.pos > old(self).lexer.pos),
            invariant
                parser_same_source(*old(self), *self),
                self.depth == old(self).depth + 1,
                self.lexer.fuel.budget < old(self).lexer.fuel.budget,
                pl == (plain_ready(*old(self)) && list_ok(toks(*old(self)), 0) && fuel_for(*old(self), 128, 68)
                    && old(self).depth + 1 < MAX_DEPTH),
                t0 == toks(*old(self)),
                ss == list_starts(t0, 0),
            ensures
                parser_same_source(*old(self), *self),
                self.depth == old(self).depth + 1,
                pl ==> plain_ready(*self) && toks(*self) == t0.subrange(list_end(t0, 0), t0.len() as int)
                    && spent_on(*old(self), *self, 128, 68) && semi_list_of(left, t0, ss)
                    && (toks(*self).len() > 0 ==> self.lexer.pos > old(self).lexer.pos),
            decreases self.lexer.fuel.budget,
        {
            proof {
                if pl {
                    lemma_peeked_first(*self);
                    lemma_list_step(t0, 0, k - 1);
                    lemma_pipe_end(t0, ss[k - 1]);
                    if toks(*self).len() > 0 {
                        assert(toks(*self)[0] == t0[pipe_end(t0, ss[k - 1])]);
                    }
                    if k < ss.len() {
                        lemma_list_step(t0, 0, k);
                        lemma_pipe_end(t0, ss[k]);
                    } else {
                        assert(ss.subrange(0, k) =~= ss);
                    }
                }
            }
            self.lexer.tick()?;
            if self.at_end()? {
                break;
            }
            let prev_pos = self.lexer.pos();
            if self.peek_kind()? != TokenType::Semi {
                break;
            }
            self.lexer.next_token()?;
            proof {
                if pl {
                    assert(toks(*self) =~= t0.subrange(ss[k], t0.len() as int));
                    assert(toks(*self)[0] == t0[ss[k]]);
                }
            }
            self.skip_newlines()?;
            proof {
                if pl {
                    lemma_peeked_first(*self);
                }
            }
            if self.at_end()? || self.is_list_terminator()? {
                break;
            }
            let ghost sk = ss[k];
            proof {
                if pl {
                    lemma_pipe_shift(t0, sk, 0);
                }
            }
            let right = self.parse_background_inner(false)?;
            proof {
                if pl {
                    assert(toks(*self) =~= t0.subrange(pipe_end(t0, sk), t0.len() as int));
                }
            }
            left = make_list(left, ListOperator::Semi, right);
            proof {
                if pl {
                    assert(ss.subrange(0, k + 1).drop_last() =~= ss.subrange(0, k));
                    assert(ss.subrange(0, k + 1).last() == sk);
                    k = k + 1;
                }
            }
            if self.lexer.pos() == prev_pos {
                break;
            }
        }
        self.leave();
        Ok(left)
    }

    /// Parses a command list. Precedence: `;`/newline < `&` < `&&`/`||` < `|`.
    pub fn parse_list(&mut self) -> (r: Result<Node>)
        requires
            old(self).lexer.wf(),
        ensures
            parser_same_source(*old(self), *final(self)),
            r is Ok ==> final(self).depth == old(self).depth,
            plain_ready(*old(self)) && pipe_line(toks(*old(self)), 0) && fuel_for(*old(self), 80, 68) && old(self).depth + 1 < MAX_DEPTH
                ==> r is Ok && pipeline_of(r->Ok_0, toks(*old(self)), 0) && read_all(*old(self), *final(self), 80, 68),
        decreases old(self).lexer.fuel.budget,
    {
        let ghost pl = plain_ready(*old(self)) && pipe_line(toks(*old(self)), 0) && fuel_for(*old(self), 80, 68)
            && old(self).depth + 1 < MAX_DEPTH;
        proof {
            if pl {
                lemma_pipe_line_ok(toks(*old(self)), 0);
            }
        }
        self.lexer.tick()?;
        self.enter()?;
        let mut left = self.parse_background_inner(false)?;
        loop
            invariant_except_break
                pl ==> plain_ready(*self) && toks(*self).len() == 0 && spent_on(*old(self), *self, 80, 61)
                    && pipeline_of(left, toks(*old(self)), 0),
            invariant
                parser_same_source(*old(self), *self),
                self.depth == old(self).depth + 1,
                self.lexer.fuel.budget < old(self).lexer.fuel.budget,
                pl == (plain_ready(*old(self)) && pipe_line(toks(*old(self)), 0) && fuel_for(*old(self), 80, 68)
                    && old(self).depth + 1 < MAX_DEPTH),
            ensures
                parser_same_source(*old(self), *self),
                self.depth == old(self).depth + 1,
                pl ==> plain_ready(*self) && toks(*self).len() == 0 && spent_on(*old(self), *self, 80, 65)
                    && pipeline_of(left, toks(*old(self)), 0),
            decreases self.lexer.fuel.budget,
        {
            proof {
                if pl {
                    lemma_peeked_first(*self);
                }
            }
            self.lexer.tick()?;
            if self.at_end()? {
                break;
            }
            let prev_pos = self.lexer.pos();
            let kind = self.peek_kind()?;
            if !(kind == TokenType::Semi || kind == TokenType::Newline) {
                break;
            }
            self.lexer.next_token()?;
            self.skip_newlines()?;
            if self.at_end()? || self.is_list_terminator()? {
                break;
            }
            let right = self.parse_background_inner(false)?;
            left = make_list(left, ListOperator::Semi, right);
            if self.lexer.pos() == prev_pos {
                break;
            }
        }
        self.leave();
        Ok(left)
    }

    /// The `&` level. At top level (`top_level`) newlines after `&` are
    /// left for the caller; otherwise they are skipped.
    pub fn parse_background_inner(&mut self, top_level: bool) -> (r: Result<Node>)
        requires
            old(self).lexer.wf(),
        ensures
            parser_same_source(*old(self), *final(self)),
            r is Ok ==> final(self).depth == old(self).depth,
            plain_ready(*old(self)) && pipe_ok(toks(*old(self)), 0) && fuel_for(*old(self), 80, 60) && old(self).depth < MAX_DEPTH
                ==> r is Ok && pipeline_of(r->Ok_0, toks(*old(self)), 0)
                    && read_to(*old(self), *final(self), pipe_end(toks(*old(self)), 0), 80, 60),
        decreases old(self).lexer.fuel.budget,
    {
        let ghost pl = plain_ready(*old(self)) && pipe_ok(toks(*old(self)), 0) && fuel_for(*old(self), 80, 60) && old(self).depth < MAX_DEPTH;
        let ghost t0 = toks(*old(self));
        self.lexer.tick()?;
        let mut left = self.parse_and_or()?;
        loop
            invariant_except_break
                pl ==> plain_ready(*self) && toks(*self) == t0.subrange(pipe_end(t0, 0), t0.len() as int)
                    && spent_on(*old(self), *self, 80, 53) && pipeline_of(left, t0, 0)
                    && (toks(*self).len() > 0 ==> self.lexer.pos > old(self).lexer.pos),
            invariant
                parser_same_source(*old(self), *self),
                self.depth == old(self).depth,
                self.lexer.fuel.budget < old(self).lexer.fuel.budget,
                pl == (plain_ready(*old(self)) && pipe_ok(toks(*old(self)), 0) && fuel_for(*old(self), 80, 60) && old(self).depth < MAX_DEPTH),
                t0 == toks(*old(self)),
            ensures
                parser_same_source(*old(self), *self),
                self.depth == old(self).depth,
                pl ==> plain_ready(*self) && toks(*self) == t0.subrange(pipe_end(t0, 0), t0.len() as int)
                    && spent_on(*old(self), *self, 80, 60) && pipeline_of(left, t0, 0)
                    && (toks(*self).len() > 0 ==> self.lexer.pos > old(self).lexer.pos),
            decreases self.lexer.fuel.budget,
        {
            proof {
                if pl {
                    lemma_peeked_first(*self);
                    lemma_pipe_end(t0, 0);
                    if toks(*self).len() > 0 {
                        assert(toks(*self)[0] == t0[pipe_end(t0, 0)]);
                    }
                }
            }
            self.lexer.tick()?;
            if self.at_end()? {
                break;
            }
            if self.peek_kind()? != TokenType::Ampersand {
                break;
            }
            self.lexer.next_token()?;
            if !top_level {
                self.skip_newlines()?;
            }
            if self.at_end()? || self.is_list_terminator()? {
                let p = self.lexer.byte_offset(self.lexer.pos());
                left = make_trailing(left, ListOperator::Background, p);
                break;
            }
            let peek_kind = self.peek_kind()?;
            if peek_kind == TokenType::Semi || peek_kind == TokenType::Newline {
                let p = self.lexer.byte_offset(self.lexer.pos());
                left = make_trailing(left, ListOperator::Background, p);
                break;
            }
            let right = self.parse_and_or()?;
            left = make_list(left, ListOperator::Background, right);
        }
        Ok(left)
    }

    /// The `&&` / `||` level.
    pub fn parse_and_or(&mut self) -> (r: Result<Node>)
        requires
            old(self).lexer.wf(),
        ensures
            parser_same_source(*old(self), *final(self)),
            r is Ok ==> final(self).depth == old(self).depth,
            plain_ready(*old(self)) && pipe_ok(toks(*old(self)), 0) && fuel_for(*old(self), 80, 52) && old(self).depth < MAX_DEPTH
                ==> r is Ok && pipeline_of(r->Ok_0, toks(*old(self)), 0)
                    && read_to(*old(self), *final(self), pipe_end(toks(*old(self)), 0), 80, 52),
        decreases old(self).lexer.fuel.budget,
    {
        let ghost pl = plain_ready(*old(self)) && pipe_ok(toks(*old(self)), 0) && fuel_for(*old(self), 80, 52) && old(self).depth < MAX_DEPTH;
        let ghost t0 = toks(*old(self));
        self.lexer.tick()?;
        let mut left = self.parse_pipeline()?;
        loop
            invariant_except_break
                pl ==> plain_ready(*self) && toks(*self) == t0.subrange(pipe_end(t0, 0), t0.len() as int)
                    && spent_on(*old(self), *self, 80, 45) && pipeline_of(left, t0, 0)
                    && (toks(*self).len() > 0 ==> self.lexer.pos > old(self).lexer.pos),
            invariant
                parser_same_source(*old(self), *self),
                self.depth == old(self).depth,
                self.lexer.fuel.budget < old(self).lexer.fuel.budget,
                pl == (plain_ready(*old(self)) && pipe_ok(toks(*old(self)), 0) && fuel_for(*old(self), 80, 52) && old(self).depth < MAX_DEPTH),
                t0 == toks(*old(self)),
            ensures
                parser_same_source(*old(self), *self),
                self.depth == old(self).depth,
                pl ==> plain_ready(*self) && toks(*self) == t0.subrange(pipe_end(t0, 0), t0.len() as int)
                    && spent_on(*old(self), *self, 80, 52) && pipeline_of(left, t0, 0)
                    && (toks(*self).len() > 0 ==> self.lexer.pos > old(self).lexer.pos),
            decreases self.lexer.fuel.budget,
        {
            proof {
                if pl {
                    lemma_peeked_first(*self);
                    lemma_pipe_end(t0, 0);
                    if toks(*self).len() > 0 {
                        assert(toks(*self)[0] == t0[pipe_end(t0, 0)]);
                    }
                }
            }
            self.lexer.tick()?;
            if self.at_end()? {
                break;
            }
            let kind = self.peek_kind()?;
            if kind == TokenType::And {
                self.lexer.next_token()?;
                self.skip_newlines()?;
                let right = self.parse_pipeline()?;
                left = make_list(left, ListOperator::And, right);
            } else if kind == TokenType::Or {
                self.lexer.next_token()?;
                self.skip_newlines()?;
                let right = self.parse_pipeline()?;
                left = make_list(left, ListOperator::Or, right);
            } else {
                break;
            }
        }
        Ok(left)
    }

    /// A pipeline, possibly negated with `!` or timed with `time [-p]`.
    pub fn parse_pipeline(&mut self) -> (r: Result<Node>)
        requires
            old(self).lexer.wf(),
        ensures
            parser_same_source(*old(self), *final(self)),
            r is Ok ==> final(self).depth == old(self).depth,
            plain_ready(*old(self)) && pipe_ok(toks(*old(self)), 0) && fuel_for(*old(self), 80, 44) && old(self).depth < MAX_DEPTH
                ==> r is Ok && pipeline_of(r->Ok_0, toks(*old(self)), 0)
                    && read_to(*old(self), *final(self), pipe_end(toks(*old(self)), 0), 80, 44),
        decreases old(self).lexer.fuel.budget,
    {
        proof {
            if plain_ready(*old(self)) && pipe_ok(toks(*old(self)), 0) {
                lemma_peeked_first(*old(self));
                lemma_pipe_end(toks(*old(self)), 0);
            }
        }
        self.lexer.tick()?;
        let start = self.peek_pos()?;
        if self.peek_kind()? == TokenType::Bang {
            self.lexer.next_token()?;
            if self.peek_kind()? == TokenType::Bang {
                self.lexer.next_token()?;
                return self.parse_pipeline_inner();
            }
            let inner = self.parse_pipeline()?;
            return Ok(self.spanned(start, NodeKind::Negation { pipeline: Box::new(inner) }));
        }
        if self.peek_kind()? == TokenType::Time {
            self.lexer.next_token()?;
            let posix = if self.check_word("-p")? {
                self.lexer.next_token()?;
                true
            } else {
                false
            };
            if self.peek_kind()? == TokenType::Bang {
                self.lexer.next_token()?;
                let p = self.parse_pipeline_inner()?;
                let timed = self.spanned(start, NodeKind::Time { pipeline: Box::new(p), posix });
                return Ok(self.spanned(start, NodeKind::Negation { pipeline: Box::new(timed) }));
            }
            let inner = self.parse_pipeline_inner()?;
            return Ok(self.spanned(start, NodeKind::Time { pipeline: Box::new(inner), posix }));
        }
        self.parse_pipeline_inner()
    }

    /// Commands joined by `|` or `|&`.
    pub fn parse_pipeline_inner(&mut self) -> (r: Result<Node>)
        requires
            old(self).lexer.wf(),
        ensures
            parser_same_source(*old(self), *final(self)),
            r is Ok ==> final(self).depth == old(self).depth,
            plain_ready(*old(self)) && pipe_ok(toks(*old(self)), 0) && fuel_for(*old(self), 80, 32) && old(self).depth < MAX_DEPTH
                ==> r is Ok && pipeline_of(r->Ok_0, toks(*old(self)), 0)
                    && read_to(*old(self), *final(self), pipe_end(toks(*old(self)), 0), 80, 32),
        decreases old(self).lexer.fuel.budget,
    {
        let ghost pl = plain_ready(*old(self)) && pipe_ok(toks(*old(self)), 0) && fuel_for(*old(self), 80, 32)
            && old(self).depth < MAX_DEPTH;
        let ghost t0 = toks(*old(self));
        proof {
            if pl {
                lemma_peeked_first(*old(self));
                lemma_pipe_step(t0, 0, 0);
                lemma_pipe_end(t0, 0);
                assert(t0.subrange(0, t0.len() as int) =~= t0);
            }
        }
        self.lexer.tick()?;
        let first = self.parse_command()?;
        let mut commands: Vec<Node> = vec![first];
        let mut separators: Vec<PipeSep> = Vec::new();
        loop
            invariant_except_break
                pl ==> plain_ready(*self) && commands@.len() == separators@.len() + 1
                    && commands@.len() <= pipe_count(t0, 0)
                    && toks(*self) == t0.subrange(words_end(t0, pipe_start(t0, 0, (commands@.len() - 1) as nat)), t0.len() as int)
                    && (forall|m: int| 0 <= m < commands@.len() ==> command_of(#[trigger] commands@[m], t0,
                        pipe_start(t0, 0, m as nat), words_end(t0, pipe_start(t0, 0, m as nat))))
                    && (forall|m: int| 0 <= m < separators@.len() ==> #[trigger] separators@[m] == PipeSep::Pipe)
                    && spent_on(*old(self), *self, 80, 25)
                    && (toks(*self).len() > 0 ==> self.lexer.pos > old(self).lexer.pos),
            invariant
                parser_same_source(*old(self), *self),
                self.depth == old(self).depth,
                self.lexer.fuel.budget < old(self).lexer.fuel.budget,
                commands@.len() >= 1,
                pl == (plain_ready(*old(self)) && pipe_ok(toks(*old(self)), 0) && fuel_for(*old(self), 80, 32)
                    && old(self).depth < MAX_DEPTH),
                t0 == toks(*old(self)),
            ensures
                parser_same_source(*old(self), *self),
                self.depth == old(self).depth,
                commands@.len() >= 1,
                pl ==> plain_ready(*self) && commands@.len() == separators@.len() + 1
                    && commands@.len() == pipe_count(t0, 0)
                    && toks(*self) == t0.subrange(pipe_end(t0, 0), t0.len() as int)
                    && (toks(*self).len() > 0 ==> self.lexer.pos > old(self).lexer.pos)
                    && (forall|m: int| 0 <= m < commands@.len() ==> command_of(#[trigger] commands@[m], t0,
                        pipe_start(t0, 0, m as nat), words_end(t0, pipe_start(t0, 0, m as nat))))
                    && (forall|m: int| 0 <= m < separators@.len() ==> #[trigger] separators@[m] == PipeSep::Pipe)
                    && spent_on(*old(self), *self, 80, 32),
            decreases self.lexer.fuel.budget,
        {
            let ghost m = (commands@.len() - 1) as nat;
            proof {
                if pl {
                    lemma_pipe_step(t0, 0, m);
                    lemma_words_end_bound(t0, pipe_start(t0, 0, m));
                    lemma_peeked_first(*self);
                }
            }
            self.lexer.tick()?;
            if self.at_end()? {
                break;
            }
            let kind = self.peek_kind()?;
            if kind == TokenType::Pipe {
                let ghost we = words_end(t0, pipe_start(t0, 0, m));
                let ghost s1 = pipe_start(t0, 0, m + 1);
                proof {
                    if pl {
                        assert(toks(*self)[0] == t0[we]);
                        lemma_pipe_step(t0, 0, m + 1);
                        lemma_pipe_end(t0, s1);
                    }
                }
                self.lexer.next_token()?;
                proof {
                    if pl {
                        assert(toks(*self) =~= t0.subrange(s1, t0.len() as int));
                        assert(toks(*self)[0] == t0[s1]);
                    }
                }
                self.skip_newlines()?;
                separators.push(PipeSep::Pipe);
                let c = self.parse_pipeline_command()?;
                proof {
                    if pl {
                        let sub = t0.subrange(s1, t0.len() as int);
                        lemma_words_end_shift(t0, s1, 0);
                        let e = words_end(sub, 0);
                        lemma_words_end_bound(sub, 0);
                        lemma_command_shift(c, t0, s1, e);
                        assert(toks(*self) =~= t0.subrange(s1 + e, t0.len() as int));
                    }
                }
                commands.push(c);
                proof {
                    if pl {
                        assert(commands@.len() - 1 == m + 1);
                    }
                }
            } else if kind == TokenType::PipeBoth {
                self.lexer.next_token()?;
                self.skip_newlines()?;
                separators.push(PipeSep::PipeBoth);
                if !add_stderr_redirect(&mut commands) {
                    commands.push(make_stderr_redirect());
                }
                let c = self.parse_pipeline_command()?;
                commands.push(c);
            } else {
                proof {
                    if pl {
                        lemma_peeked_first(*self);
                        assert(toks(*self)[0] == t0[words_end(t0, pipe_start(t0, 0, m))]);
                    }
                }
                break;
            }
        }
        if commands.len() == 1 {
            Ok(commands.remove(0))
        } else {
            let n = commands.len();
            let span = Span::new(commands[0].span.start, commands[n - 1].span.end);
            Ok(Node::new(NodeKind::Pipeline { commands, separators }, span))
        }
    }

    /// True when the next token is a plain word spelled `expected`.
    pub fn check_word(&mut self, expected: &str) -> (r: Result<bool>)
        requires
            old(self).lexer.wf(),
        ensures
            parser_same_source(*old(self), *final(self)),
            final(self).depth == old(self).depth,
            r is Ok ==> final(self).lexer.peeked is Some && (r->Ok_0 <==> (final(self).lexer.peeked->0.kind == TokenType::Word && final(self).lexer.peeked->0.value@ == expected@)),
            ready(*old(self), 3) ==> r is Ok && looked(*old(self), *final(self), 3),
        decreases old(self).lexer.fuel.budget,
    {
        self.lexer.tick()?;
        let tok = self.lexer.peek_token()?;
        Ok(tok.kind == TokenType::Word && string_is(&tok.value, expected))
    }

    /// A command after `|`: `time` is a plain word here.
    pub fn parse_pipeline_command(&mut self) -> (r: Result<Node>)
        requires
            old(self).lexer.wf(),
        ensures
            parser_same_source(*old(self), *final(self)),
            r is Ok ==> final(self).depth == old(self).depth,
            word_first(*old(self)) && fuel_for(*old(self), 80, 32) && old(self).depth < MAX_DEPTH
                ==> r is Ok && read_command(*old(self), *final(self), r->Ok_0, 64, 32),
        decreases old(self).lexer.fuel.budget,
    {
        proof {
            if word_first(*old(self)) {
                lemma_peeked_first(*old(self));
            }
        }
        self.lexer.tick()?;
        self.enter()?;
        let start = self.peek_pos()?;
        let is_time = self.peek_kind()? == TokenType::Time;
        let result = if is_time {
            self.parse_time_words(start)
        } else {
            self.parse_command_inner()
        };
        self.leave();
        result
    }

    /// `time` after `|`: a simple command whose words include `time`,
    /// `-p` and any reserved words that follow.
    fn parse_time_words(&mut self, start: usize) -> (r: Result<Node>)
        requires
            old(self).lexer.wf(),
        ensures
            parser_same_source(*old(self), *final(self)),
            r is Ok ==> final(self).depth == old(self).depth,
            r matches Ok(n) ==> n.span.start == crate::text::byte_pos(old(self).lexer.input@, start as int) && (n.kind matches NodeKind::Command { assignments, words, redirects }
                && assignments@.len() == 0 && words@.len() >= 1
                && (forall|i: int| 0 <= i < words@.len() ==> (#[trigger] words@[i]).kind is Word)
                && (forall|i: int| 0 <= i < redirects@.len() ==> (#[trigger] redirects@[i]).kind is Redirect || redirects@[i].kind is HereDoc)),
        decreases old(self).lexer.fuel.budget,
    {
        self.lexer.tick()?;
        let time_tok = self.lexer.next_token()?;
        let w = word_node_from_token(time_tok, &mut self.lexer.fuel)?;
        let mut words: Vec<Node> = vec![w];
        if self.check_word("-p")? {
            let p_tok = self.lexer.next_token()?;
            let w = word_node_from_token(p_tok, &mut self.lexer.fuel)?;
            words.push(w);
        }
        let mut redirects: Vec<Node> = Vec::new();
        loop
            invariant
                parser_same_source(*old(self), *self),
                self.depth == old(self).depth,
                self.lexer.fuel.budget < old(self).lexer.fuel.budget,
                words@.len() >= 1,
                forall|i: int| 0 <= i < words@.len() ==> (#[trigger] words@[i]).kind is Word,
                forall|i: int| 0 <= i < redirects@.len() ==> (#[trigger] redirects@[i]).kind is Redirect || redirects@[i].kind is HereDoc,
            decreases self.lexer.fuel.budget,
        {
            self.lexer.tick()?;
            if self.at_end()? {
                break;
            }
            let k = self.peek_kind()?;
            if k == TokenType::Pipe || k == TokenType::PipeBoth || k == TokenType::Semi
                || k == TokenType::Newline || k == TokenType::Ampersand || k == TokenType::And
                || k == TokenType::Or || k == TokenType::Eof || k == TokenType::RightParen {
                break;
            }
            if self.is_redirect_operator()? {
                let rd = self.parse_redirect()?;
                redirects.push(rd);
                continue;
            }
            let t = self.lexer.next_token()?;
            let w = word_node_from_token(t, &mut self.lexer.fuel)?;
            words.push(w);
        }
        Ok(self.spanned(start, NodeKind::Command { assignments: Vec::new(), words, redirects }))
    }
}

} // verus!
