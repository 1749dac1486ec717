//! Operator tokens: `|`, `&`, `;` families and redirection operators.
use vstd::prelude::*;
use crate::token::{Token, TokenType};
use super::{same_source, Lexer};

verus! {

/// The token kind of an operator spelling.
pub open spec fn operator_kind(s: Seq<char>) -> TokenType {
    if (s.len() == 1 && s[0] == '|') { TokenType::Pipe }
    else if (s.len() == 2 && s[0] == '|' && s[1] == '|') { TokenType::Or }
    else if (s.len() == 2 && s[0] == '|' && s[1] == '&') { TokenType::PipeBoth }
    else if (s.len() == 1 && s[0] == '&') { TokenType::Ampersand }
    else if (s.len() == 2 && s[0] == '&' && s[1] == '&') { TokenType::And }
    else if (s.len() == 2 && s[0] == '&' && s[1] == '>') { TokenType::AndGreater }
    else if (s.len() == 3 && s[0] == '&' && s[1] == '>' && s[2] == '>') { TokenType::AndDoubleGreater }
    else if (s.len() == 1 && s[0] == ';') { TokenType::Semi }
    else if (s.len() == 2 && s[0] == ';' && s[1] == ';') { TokenType::DoubleSemi }
    else if (s.len() == 2 && s[0] == ';' && s[1] == '&') { TokenType::SemiAnd }
    else if (s.len() == 3 && s[0] == ';' && s[1] == ';' && s[2] == '&') { TokenType::SemiSemiAnd }
    else if (s.len() == 1 && s[0] == '<') { TokenType::Less }
    else if (s.len() == 2 && s[0] == '<' && s[1] == '<') { TokenType::DoubleLess }
    else if (s.len() == 3 && s[0] == '<' && s[1] == '<' && s[2] == '-') { TokenType::DoubleLessDash }
    else if (s.len() == 3 && s[0] == '<' && s[1] == '<' && s[2] == '<') { TokenType::TripleLess }
    else if (s.len() == 2 && s[0] == '<' && s[1] == '&') || (s.len() == 3 && s[0] == '<' && s[1] == '&' && s[2] == '-') { TokenType::LessAnd }
    else if (s.len() == 2 && s[0] == '<' && s[1] == '>') { TokenType::LessGreater }
    else if (s.len() == 1 && s[0] == '>') { TokenType::Greater }
    else if (s.len() == 2 && s[0] == '>' && s[1] == '>') { TokenType::DoubleGreater }
    else if (s.len() == 2 && s[0] == '>' && s[1] == '&') || (s.len() == 3 && s[0] == '>' && s[1] == '&' && s[2] == '-') { TokenType::GreaterAnd }
    else if (s.len() == 2 && s[0] == '>' && s[1] == '|') { TokenType::GreaterPipe }
    else { TokenType::Word }
}

/// The length of the longest operator that starts at the lexer's position
/// (0 when no operator starts there).
pub open spec fn operator_len(l: Lexer) -> int {
    let c0 = l.char_at(l.pos as int);
    let c1 = l.char_at(l.pos + 1);
    let c2 = l.char_at(l.pos + 2);
    if c0 == Some('|') {
        if c1 == Some('|') || c1 == Some('&') { 2 } else { 1 }
    } else if c0 == Some('&') {
        if c1 == Some('&') { 2 } else if c1 == Some('>') { if c2 == Some('>') { 3 } else { 2 } } else { 1 }
    } else if c0 == Some(';') {
        if c1 == Some(';') { if c2 == Some('&') { 3 } else { 2 } } else if c1 == Some('&') { 2 } else { 1 }
    } else if c0 == Some('<') {
        if c1 == Some('<') {
            if c2 == Some('-') || c2 == Some('<') { 3 } else { 2 }
        } else if c1 == Some('&') {
            if c2 == Some('-') { 3 } else { 2 }
        } else if c1 == Some('>') {
            2
        } else {
            1
        }
    } else if c0 == Some('>') {
        if c1 == Some('>') { 2 } else if c1 == Some('&') { if c2 == Some('-') { 3 } else { 2 } } else if c1 == Some('|') { 2 } else { 1 }
    } else {
        0
    }
}

/// What reading an operator does: the longest operator at the position is
/// consumed and becomes the token's text, and its kind follows from that
/// text.
pub open spec fn reads_operator(a: Lexer, b: Lexer, r: Token, start: usize, line: usize) -> bool {
    &&& b.pos == a.pos + operator_len(a)
    &&& r.value@ == a.input@.subrange(a.pos as int, b.pos as int)
    &&& r.kind == operator_kind(r.value@)
    &&& r.pos == start
    &&& r.line == line
}

impl Lexer {
    /// Builds a token that ends a simple command and re-arms command start.
    pub fn command_token(&mut self, kind: TokenType, text: &str, start: usize, line: usize) -> (r: Token)
        requires
            old(self).wf(),
        ensures
            same_source(*old(self), *final(self)),
            final(self).pos == old(self).pos,
            final(self).ctx.command_start,
            final(self).ctx.reserved_words_ok,
            r.kind == kind,
            r.value@ == text@,
            r.pos == start,
            r.line == line,
            r.spans@.len() == 0,
            *final(self) == (Lexer { ctx: final(self).ctx, ..*old(self) }),
    {
        self.set_command_start();
        Token::new(kind, text, start, line)
    }

    /// Reads `|`, `||` or `|&`.
    pub fn read_pipe_operator(&mut self, start: usize, line: usize) -> (r: Token)
        requires
            old(self).wf(),
            old(self).char_at(old(self).pos as int) == Some('|'),
        ensures
            same_source(*old(self), *final(self)),
            final(self).pos > old(self).pos,
            r.spans@.len() == 0,
            reads_operator(*old(self), *final(self), r, start, line),
            r.pos == start,
            final(self).peeked == old(self).peeked,
            final(self).pending_heredocs == old(self).pending_heredocs,
            final(self).heredoc_contents == old(self).heredoc_contents,
            final(self).fuel == old(self).fuel,
    {
        self.advance_char();
        let r = match self.peek_char() {
            Some('|') => {
                self.advance_char();
                self.command_token(TokenType::Or, "||", start, line)
            }
            Some('&') => {
                self.advance_char();
                self.command_token(TokenType::PipeBoth, "|&", start, line)
            }
            _ => self.command_token(TokenType::Pipe, "|", start, line),
        };
        proof {
            reveal_strlit("|");
            reveal_strlit("|&");
            reveal_strlit("||");
        }
        assert(r.value@ =~= old(self).input@.subrange(old(self).pos as int, self.pos as int));
        r
    }

    /// Reads `&`, `&&`, `&>` or `&>>`.
    pub fn read_ampersand_operator(&mut self, start: usize, line: usize) -> (r: Token)
        requires
            old(self).wf(),
            old(self).char_at(old(self).pos as int) == Some('&'),
        ensures
            same_source(*old(self), *final(self)),
            final(self).pos > old(self).pos,
            r.spans@.len() == 0,
            reads_operator(*old(self), *final(self), r, start, line),
            r.pos == start,
    {
        self.advance_char();
        let r = match self.peek_char() {
            Some('&') => {
                self.advance_char();
                self.command_token(TokenType::And, "&&", start, line)
            }
            Some('>') => {
                self.advance_char();
                if self.peek_char() == Some('>') {
                    self.advance_char();
                    Token::new(TokenType::AndDoubleGreater, "&>>", start, line)
                } else {
                    Token::new(TokenType::AndGreater, "&>", start, line)
                }
            }
            _ => self.command_token(TokenType::Ampersand, "&", start, line),
        };
        proof {
            reveal_strlit("&");
            reveal_strlit("&&");
            reveal_strlit("&>");
            reveal_strlit("&>>");
        }
        assert(r.value@ =~= old(self).input@.subrange(old(self).pos as int, self.pos as int));
        r
    }

    /// Reads `;`, `;;`, `;&` or `;;&`.
    pub fn read_semicolon_operator(&mut self, start: usize, line: usize) -> (r: Token)
        requires
            old(self).wf(),
            old(self).char_at(old(self).pos as int) == Some(';'),
        ensures
            same_source(*old(self), *final(self)),
            final(self).pos > old(self).pos,
            r.spans@.len() == 0,
            reads_operator(*old(self), *final(self), r, start, line),
            r.pos == start,
            final(self).peeked == old(self).peeked,
            final(self).pending_heredocs == old(self).pending_heredocs,
            final(self).heredoc_contents == old(self).heredoc_contents,
            final(self).fuel == old(self).fuel,
    {
        self.advance_char();
        let r = match self.peek_char() {
            Some(';') => {
                self.advance_char();
                if self.peek_char() == Some('&') {
                    self.advance_char();
                    self.command_token(TokenType::SemiSemiAnd, ";;&", start, line)
                } else {
                    self.command_token(TokenType::DoubleSemi, ";;", start, line)
                }
            }
            Some('&') => {
                self.advance_char();
                self.command_token(TokenType::SemiAnd, ";&", start, line)
            }
            _ => self.command_token(TokenType::Semi, ";", start, line),
        };
        proof {
            reveal_strlit(";");
            reveal_strlit(";&");
            reveal_strlit(";;");
            reveal_strlit(";;&");
        }
        assert(r.value@ =~= old(self).input@.subrange(old(self).pos as int, self.pos as int));
        r
    }

    /// Reads `<`, `<<`, `<<-`, `<<<`, `<&`, `<&-` or `<>`.
    pub fn read_less_operator(&mut self, start: usize, line: usize) -> (r: Token)
        requires
            old(self).wf(),
            old(self).char_at(old(self).pos as int) == Some('<'),
        ensures
            same_source(*old(self), *final(self)),
            final(self).pos > old(self).pos,
            r.spans@.len() == 0,
            reads_operator(*old(self), *final(self), r, start, line),
            r.pos == start,
    {
        self.advance_char();
        let r = match self.peek_char() {
            Some('<') => {
                self.advance_char();
                match self.peek_char() {
                    Some('-') => {
                        self.advance_char();
                        Token::new(TokenType::DoubleLessDash, "<<-", start, line)
                    }
                    Some('<') => {
                        self.advance_char();
                        Token::new(TokenType::TripleLess, "<<<", start, line)
                    }
                    _ => Token::new(TokenType::DoubleLess, "<<", start, line),
                }
            }
            Some('&') => {
                self.advance_char();
                if self.peek_char() == Some('-') {
                    self.advance_char();
                    Token::new(TokenType::LessAnd, "<&-", start, line)
                } else {
                    Token::new(TokenType::LessAnd, "<&", start, line)
                }
            }
            Some('>') => {
                self.advance_char();
                Token::new(TokenType::LessGreater, "<>", start, line)
            }
            _ => Token::new(TokenType::Less, "<", start, line),
        };
        proof {
            reveal_strlit("<");
            reveal_strlit("<&");
            reveal_strlit("<&-");
            reveal_strlit("<<");
            reveal_strlit("<<-");
            reveal_strlit("<<<");
            reveal_strlit("<>");
        }
        assert(r.value@ =~= old(self).input@.subrange(old(self).pos as int, self.pos as int));
        r
    }

    /// Reads `>`, `>>`, `>&`, `>&-` or `>|`.
    pub fn read_greater_operator(&mut self, start: usize, line: usize) -> (r: Token)
        requires
            old(self).wf(),
            old(self).char_at(old(self).pos as int) == Some('>'),
        ensures
            same_source(*old(self), *final(self)),
            final(self).pos > old(self).pos,
            r.spans@.len() == 0,
            reads_operator(*old(self), *final(self), r, start, line),
            r.pos == start,
    {
        self.advance_char();
        let r = match self.peek_char() {
            Some('>') => {
                self.advance_char();
                Token::new(TokenType::DoubleGreater, ">>", start, line)
            }
            Some('&') => {
                self.advance_char();
                if self.peek_char() == Some('-') {
                    self.advance_char();
                    Token::new(TokenType::GreaterAnd, ">&-", start, line)
                } else {
                    Token::new(TokenType::GreaterAnd, ">&", start, line)
                }
            }
            Some('|') => {
                self.advance_char();
                Token::new(TokenType::GreaterPipe, ">|", start, line)
            }
            _ => Token::new(TokenType::Greater, ">", start, line),
        };
        proof {
            reveal_strlit(">");
            reveal_strlit(">&");
            reveal_strlit(">&-");
            reveal_strlit(">>");
            reveal_strlit(">|");
        }
        assert(r.value@ =~= old(self).input@.subrange(old(self).pos as int, self.pos as int));
        r
    }
}

} // verus!

verus! {

/// Every operator the lexer reads has a token kind of its own: the text
/// taken at a `|`, `&`, `;`, `<` or `>` is never classified as a word.
pub proof fn lemma_operator_kind_known(l: Lexer)
    requires
        l.wf(),
        l.char_at(l.pos as int) == Some('|') || l.char_at(l.pos as int) == Some('&')
            || l.char_at(l.pos as int) == Some(';') || l.char_at(l.pos as int) == Some('<')
            || l.char_at(l.pos as int) == Some('>'),
    ensures
        l.pos + operator_len(l) <= l.input@.len(),
        operator_kind(l.input@.subrange(l.pos as int, l.pos + operator_len(l))) != TokenType::Word,
{
    let s = l.input@.subrange(l.pos as int, l.pos + operator_len(l));
    assert(s.len() == operator_len(l));
    assert(s[0] == l.input@[l.pos as int]);
    if operator_len(l) >= 2 {
        assert(s[1] == l.input@[l.pos + 1]);
    }
    if operator_len(l) >= 3 {
        assert(s[2] == l.input@[l.pos + 2]);
    }
}

} // verus!
