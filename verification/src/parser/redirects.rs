//! Redirections and here-document queuing.
use vstd::prelude::*;
use crate::ast::{Node, NodeKind};
use crate::error::{RableError, Result};
use crate::text::{chars_of, slice_chars, string_is};
use crate::token::{Token, TokenType};
use super::helpers::{is_fd_number, is_redirect_op_kind, is_varfd, parse_heredoc_delimiter, word_node, word_node_from_token};
use super::{looked, parser_same_source, ready, Parser};
use crate::lexer::Lexer;

verus! {

broadcast use vstd::string::to_string_from_display_ensures_for_str;

/// The value of a string of decimal digits.
pub open spec fn decimal_value(s: Seq<char>) -> int
    decreases s.len(),
{
    if s.len() == 0 { 0 } else { decimal_value(s.drop_last()) * 10 + (s.last() as int - '0' as int) }
}

/// Every character is an ASCII digit.
pub open spec fn all_decimal(s: Seq<char>) -> bool {
    forall|i: int| 0 <= i < s.len() ==> '0' <= #[trigger] s[i] <= '9'
}

/// A longer string of digits has at least the value of its prefix.
pub proof fn lemma_decimal_prefix(s: Seq<char>, k: int)
    requires
        all_decimal(s),
        0 <= k <= s.len(),
    ensures
        0 <= decimal_value(s.subrange(0, k)) <= decimal_value(s),
    decreases s.len(),
{
    if s.len() > 0 {
        let d = s.drop_last();
        assert(all_decimal(d)) by {
            assert forall|i: int| 0 <= i < d.len() implies '0' <= #[trigger] d[i] <= '9' by {
                assert(d[i] == s[i]);
            }
        }
        if k == s.len() {
            assert(s.subrange(0, k) =~= s);
            lemma_decimal_prefix(d, d.len() as int);
            assert(d.subrange(0, d.len() as int) =~= d);
            assert(s.last() == s[s.len() - 1]);
        } else {
            lemma_decimal_prefix(d, k);
            assert(d.subrange(0, k) =~= s.subrange(0, k));
            lemma_decimal_prefix(d, d.len() as int);
            assert(d.subrange(0, d.len() as int) =~= d);
            assert(s.last() == s[s.len() - 1]);
        }
    } else {
        assert(s.subrange(0, k) =~= s);
    }
}

/// The value of a string of decimal digits, when it fits in an `i32`.
pub fn parse_i32(s: &String) -> (r: Option<i32>)
    ensures
        r is Some <==> (s@.len() > 0 && all_decimal(s@) && decimal_value(s@) <= 0x7fff_ffff),
        r is Some ==> r->0 == decimal_value(s@),
        r is Some ==> r->0 >= 0,
{
    let cs = chars_of(s.as_str());
    if cs.len() == 0 {
        return None;
    }
    let mut v: i64 = 0;
    let mut i: usize = 0;
    while i < cs.len()
        invariant
            0 <= v <= 0x7fff_ffff,
            i <= cs@.len(),
            cs@ == s@,
            v == decimal_value(cs@.subrange(0, i as int)),
            all_decimal(cs@.subrange(0, i as int)),
        decreases cs.len() - i,
    {
        let c = cs[i];
        let ghost pre = cs@.subrange(0, i as int);
        let ghost cur = cs@.subrange(0, i + 1);
        proof {
            assert(cur.drop_last() =~= pre);
            assert(cur.last() == c);
        }
        if !('0' <= c && c <= '9') {
            assert(!all_decimal(s@)) by {
                assert(s@[i as int] == c);
            }
            return None;
        }
        assert(all_decimal(cur)) by {
            assert forall|k: int| 0 <= k < cur.len() implies '0' <= #[trigger] cur[k] <= '9' by {
                if k < i {
                    assert(cur[k] == pre[k]);
                }
            }
        }
        v = v * 10 + ((c as u32) - ('0' as u32)) as i64;
        assert(v == decimal_value(cur));
        if v > 0x7fff_ffff {
            proof {
                if all_decimal(s@) {
                    lemma_decimal_prefix(s@, i + 1);
                }
            }
            return None;
        }
        i = i + 1;
    }
    assert(cs@.subrange(0, cs@.len() as int) =~= cs@);
    Some(v as i32)
}

/// A token that can start no redirection: neither an operator nor a word
/// or number that could name a file descriptor.
pub open spec fn no_redirect_ahead(k: TokenType) -> bool {
    !super::helpers::spec_is_redirect_op_kind(k) && k != TokenType::Word && k != TokenType::Number
}

impl Parser {
    /// A redirection whose operator is the next token.
    pub fn parse_redirect(&mut self) -> (r: Result<Node>)
        requires
            old(self).lexer.wf(),
        ensures
            parser_same_source(*old(self), *final(self)),
            final(self).depth == old(self).depth,
            r is Ok ==> r->Ok_0.kind is Redirect || r->Ok_0.kind is HereDoc,
        decreases old(self).lexer.fuel.budget,
    {
        self.lexer.tick()?;
        let op_tok = self.lexer.next_token()?;
        self.build_redirect(op_tok, -1, None)
    }

    /// A redirection prefixed by the file descriptor in `fd_tok`.
    pub fn parse_redirect_with_fd(&mut self, fd_tok: &Token) -> (r: Result<Node>)
        requires
            old(self).lexer.wf(),
        ensures
            parser_same_source(*old(self), *final(self)),
            final(self).depth == old(self).depth,
            r is Ok ==> r->Ok_0.kind is Redirect || r->Ok_0.kind is HereDoc,
        decreases old(self).lexer.fuel.budget,
    {
        self.lexer.tick()?;
        let fd = match parse_i32(&fd_tok.value) {
            Some(v) => v,
            None => return Err(RableError::parse("invalid fd number", fd_tok.pos, fd_tok.line)),
        };
        let op_tok = self.lexer.next_token()?;
        self.build_redirect(op_tok, fd, None)
    }

    /// Builds a redirection node for `op_tok`, reading its target.
    pub fn build_redirect(&mut self, op_tok: Token, fd: i32, varfd: Option<String>) -> (r: Result<Node>)
        requires
            old(self).lexer.wf(),
        ensures
            parser_same_source(*old(self), *final(self)),
            final(self).depth == old(self).depth,
            r is Ok ==> r->Ok_0.kind is Redirect || r->Ok_0.kind is HereDoc,
            r is Ok ==> r->Ok_0.span.start == crate::text::byte_pos(old(self).lexer.input@, op_tok.pos as int),
            old(self).lexer.fuel.budget == 0 ==> r is Err,
            r is Ok && (op_tok.kind == TokenType::DoubleLess || op_tok.kind == TokenType::DoubleLessDash) ==> (r->Ok_0.kind matches
                NodeKind::HereDoc { strip_tabs, fd: f, content, .. } && strip_tabs == (op_tok.kind == TokenType::DoubleLessDash)
                && f == fd && content@.len() == 0),
            r is Ok && !(op_tok.kind == TokenType::DoubleLess || op_tok.kind == TokenType::DoubleLessDash) ==> r->Ok_0.kind is Redirect,
            old(self).lexer.fuel.budget > 0 && !(op_tok.kind == TokenType::DoubleLess || op_tok.kind == TokenType::DoubleLessDash)
                && (op_tok.value@ == ">&-"@ || op_tok.value@ == "<&-"@) ==> (r matches Ok(n) && n.kind matches
                NodeKind::Redirect { fd: f, varfd: v, op: o, target: t } && f == fd && v == varfd && o@ == ">&-"@
                && t.kind is Word && t.kind->Word_value@ == seq!['0']),
            r is Ok && r->Ok_0.kind is Redirect ==> r->Ok_0.kind->Redirect_op == op_tok.value || r->Ok_0.kind->Redirect_op@ == ">&-"@,
            r is Ok && r->Ok_0.kind is Redirect && !(op_tok.kind == TokenType::GreaterAnd || op_tok.kind == TokenType::LessAnd)
                && !(op_tok.value@ == ">&-"@ || op_tok.value@ == "<&-"@) ==> r->Ok_0.kind->Redirect_op == op_tok.value
                && r->Ok_0.kind->Redirect_fd == fd && r->Ok_0.kind->Redirect_varfd == varfd
                && r->Ok_0.kind->Redirect_target.kind is Word,
        decreases old(self).lexer.fuel.budget,
    {
        self.lexer.tick()?;
        let start = op_tok.pos;
        if op_tok.kind == TokenType::DoubleLess || op_tok.kind == TokenType::DoubleLessDash {
            let delim_tok = self.lexer.next_token()?;
            let strip_tabs = op_tok.kind == TokenType::DoubleLessDash;
            let raw = chars_of(delim_tok.value.as_str());
            let (delimiter, quoted) = parse_heredoc_delimiter(raw.as_slice());
            let delim_string = crate::text::string_from_chars(delimiter.as_slice());
            self.lexer.queue_heredoc(delimiter, strip_tabs, quoted);
            return Ok(self.spanned(start, NodeKind::HereDoc {
                delimiter: delim_string,
                content: String::new(),
                strip_tabs,
                quoted,
                fd,
                complete: true,
            }));
        }
        if string_is(&op_tok.value, ">&-") || string_is(&op_tok.value, "<&-") {
            return Ok(self.spanned(start, NodeKind::Redirect {
                op: ">&-".to_string(),
                target: Box::new(word_node(&['0'])),
                fd,
                varfd,
            }));
        }
        let target_tok = self.lexer.next_token()?;
        let is_dup = op_tok.kind == TokenType::GreaterAnd || op_tok.kind == TokenType::LessAnd;
        if is_dup && string_is(&target_tok.value, "-") {
            return Ok(self.spanned(start, NodeKind::Redirect {
                op: ">&-".to_string(),
                target: Box::new(word_node(&['0'])),
                fd: -1,
                varfd,
            }));
        }
        let tv = chars_of(target_tok.value.as_str());
        let n = tv.len();
        if is_dup && n > 0 && tv[n - 1] == '-' {
            let fd_str = match slice_chars(tv.as_slice(), 0, n - 1) {
                Some(v) => v,
                None => Vec::new(),
            };
            return Ok(self.spanned(start, NodeKind::Redirect {
                op: op_tok.value,
                target: Box::new(word_node(fd_str.as_slice())),
                fd: -1,
                varfd,
            }));
        }
        let target = word_node_from_token(target_tok, &mut self.lexer.fuel)?;
        Ok(self.spanned(start, NodeKind::Redirect { op: op_tok.value, target: Box::new(target), fd, varfd }))
    }

    /// Redirections after a compound command.
    pub fn parse_trailing_redirects(&mut self) -> (r: Result<Vec<Node>>)
        requires
            old(self).lexer.wf(),
        ensures
            parser_same_source(*old(self), *final(self)),
            final(self).depth == old(self).depth,
            r is Ok ==> forall|i: int| 0 <= i < r->Ok_0@.len() ==> (#[trigger] r->Ok_0@[i]).kind is Redirect || r->Ok_0@[i].kind is HereDoc,
            ready(*old(self), 11) && no_redirect_ahead(old(self).lexer.peeked->0.kind) ==> (r matches Ok(v) && v@.len() == 0)
                && looked(*old(self), *final(self), 11),
        decreases old(self).lexer.fuel.budget,
    {
        self.lexer.tick()?;
        let mut redirects: Vec<Node> = Vec::new();
        loop
            invariant_except_break
                ready(*old(self), 11) && no_redirect_ahead(old(self).lexer.peeked->0.kind) ==> redirects@.len() == 0
                    && self.lexer == (Lexer { fuel: self.lexer.fuel, ..old(self).lexer }) && self.lexer.fuel.budget + 1 == old(self).lexer.fuel.budget,
            invariant
                parser_same_source(*old(self), *self),
                self.depth == old(self).depth,
                self.lexer.fuel.budget < old(self).lexer.fuel.budget,
                forall|i: int| 0 <= i < redirects@.len() ==> (#[trigger] redirects@[i]).kind is Redirect || redirects@[i].kind is HereDoc,
            ensures
                parser_same_source(*old(self), *self),
                self.depth == old(self).depth,
                forall|i: int| 0 <= i < redirects@.len() ==> (#[trigger] redirects@[i]).kind is Redirect || redirects@[i].kind is HereDoc,
                ready(*old(self), 11) && no_redirect_ahead(old(self).lexer.peeked->0.kind) ==> redirects@.len() == 0
                    && looked(*old(self), *self, 11),
            decreases self.lexer.fuel.budget,
        {
            self.lexer.tick()?;
            if self.at_end()? {
                break;
            }
            if self.is_redirect_operator()? {
                let rd = self.parse_redirect()?;
                redirects.push(rd);
            } else {
                let tok = self.lexer.peek_token()?;
                if tok.kind == TokenType::Word || tok.kind == TokenType::Number {
                    if is_fd_number(&tok.value) {
                        let tok = self.lexer.next_token()?;
                        if self.is_redirect_operator()? {
                            let rd = self.parse_redirect_with_fd(&tok)?;
                            redirects.push(rd);
                            continue;
                        }
                        break;
                    }
                    if is_varfd(&tok.value) {
                        let _varfd = self.lexer.next_token()?;
                        if self.is_redirect_operator()? {
                            let rd = self.parse_redirect()?;
                            redirects.push(rd);
                            continue;
                        }
                        break;
                    }
                }
                break;
            }
        }
        Ok(redirects)
    }

    /// True if the next token is `&>` or `&>>`.
    pub fn is_and_redirect(&mut self) -> (r: Result<bool>)
        requires
            old(self).lexer.wf(),
        ensures
            parser_same_source(*old(self), *final(self)),
            final(self).depth == old(self).depth,
            r is Ok ==> final(self).lexer.peeked is Some && (r->Ok_0 <==> (final(self).lexer.peeked->0.kind == TokenType::AndGreater || final(self).lexer.peeked->0.kind == TokenType::AndDoubleGreater)),
            ready(*old(self), 4) ==> r is Ok && looked(*old(self), *final(self), 4),
        decreases old(self).lexer.fuel.budget,
    {
        self.lexer.tick()?;
        let k = self.peek_kind()?;
        Ok(k == TokenType::AndGreater || k == TokenType::AndDoubleGreater)
    }

    /// True if the next token is a redirection operator.
    pub fn is_redirect_operator(&mut self) -> (r: Result<bool>)
        requires
            old(self).lexer.wf(),
        ensures
            parser_same_source(*old(self), *final(self)),
            final(self).depth == old(self).depth,
            r is Ok ==> final(self).lexer.peeked is Some && (r->Ok_0 <==> super::helpers::spec_is_redirect_op_kind(final(self).lexer.peeked->0.kind)),
            ready(*old(self), 4) ==> r is Ok && looked(*old(self), *final(self), 4),
        decreases old(self).lexer.fuel.budget,
    {
        self.lexer.tick()?;
        let k = self.peek_kind()?;
        Ok(is_redirect_op_kind(k))
    }
}

} // verus!
