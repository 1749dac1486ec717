//! Recursive-descent parser for bash.
use vstd::prelude::*;
use crate::ast::{Node, NodeKind, Span};
use crate::error::{RableError, Result};
use crate::lexer::{same_source, Lexer, LexerMode};
use crate::text::{string_is, string_from_chars};
use crate::token::{Token, TokenType};
use self::helpers::{fill_heredoc_contents, word_node_from_token};
use self::plain::{
    doc_lines, drop_newlines, fuel_for, lemma_peeked_first, lines_of, list_end, list_ok, list_starts, plain_ready,
    semi_list_of, spent_on, toks,
};
use crate::lexer::stream::{fuel_for_rest, plain_ahead, spent};

pub mod arithmetic;
pub mod case_select;
pub mod conditionals;
pub mod functions;
pub mod helpers;
pub mod lists;
pub mod loops;
pub mod plain;
pub mod redirects;
pub mod simple_command;
pub mod word_parts;

verus! {

/// Maximum nesting depth of the grammar.
pub const MAX_DEPTH: usize = 1000;

/// Recursive descent parser for bash.
pub struct Parser {
    pub lexer: Lexer,
    pub depth: usize,
}

/// A token that closes an enclosing compound construct: end of input, a
/// closing keyword or delimiter, a case terminator, or a word `}` / `]]`.
pub open spec fn spec_is_list_terminator(t: Token) -> bool {
    ||| (t.kind == TokenType::Word && (t.value@ == seq!['}'] || t.value@ == seq![']', ']']))
    ||| t.kind == TokenType::Eof || t.kind == TokenType::Fi || t.kind == TokenType::Done
    ||| t.kind == TokenType::Esac || t.kind == TokenType::RightParen || t.kind == TokenType::RightBrace
    ||| t.kind == TokenType::DoubleSemi || t.kind == TokenType::SemiAnd || t.kind == TokenType::SemiSemiAnd
    ||| t.kind == TokenType::Then || t.kind == TokenType::Else || t.kind == TokenType::Elif
    ||| t.kind == TokenType::Do
}

/// The lexer of `b` reads the same source as that of `a`, as
/// [`same_source`] describes; it implies no progress.
pub open spec fn parser_same_source(a: Parser, b: Parser) -> bool {
    same_source(a.lexer, b.lexer)
}

/// Runs the command-list grammar on a fork of `outer` up to and including
/// the `)` that closes the list. Returns the fork's final position and line;
/// the parsed tree is discarded. The fork's spent budget is charged to `outer`.
pub fn parse_cmdsub_body(outer: &mut Lexer) -> (r: Result<(usize, usize)>)
    requires
        old(outer).wf(),
    ensures
        same_source(*old(outer), *final(outer)),
        final(outer).pos == old(outer).pos,
        r is Ok ==> r->Ok_0.0 <= old(outer).input@.len(),
    decreases old(outer).fuel.budget,
{
    outer.tick()?;
    let depth = outer.parser_depth();
    let mut parser = Parser { lexer: outer.fork(LexerMode::Cmdsub), depth };
    let res = parser.parse_cmdsub_body_inner();
    outer.fuel.budget = parser.lexer.fuel.budget;
    res?;
    Ok((parser.lexer.pos(), parser.lexer.line()))
}

/// Runs the command-list grammar on a backtick fork of `outer` until an
/// unescaped backtick, which it consumes. Returns the fork's final
/// position and line; the parsed tree is discarded.
pub fn parse_backtick_body(outer: &mut Lexer) -> (r: Result<(usize, usize)>)
    requires
        old(outer).wf(),
    ensures
        same_source(*old(outer), *final(outer)),
        final(outer).pos == old(outer).pos,
        r is Ok ==> r->Ok_0.0 <= old(outer).input@.len(),
    decreases old(outer).fuel.budget,
{
    outer.tick()?;
    let depth = outer.parser_depth();
    let mut parser = Parser { lexer: outer.fork(LexerMode::Backtick), depth };
    let res = parser.parse_backtick_body_inner();
    outer.fuel.budget = parser.lexer.fuel.budget;
    res?;
    Ok((parser.lexer.pos(), parser.lexer.line()))
}

/// The name of a token type, as a sequence of characters.
pub open spec fn token_type_name_spec(t: TokenType) -> Seq<char> {
    match t {
        TokenType::Eof => "Eof"@,
        TokenType::Word => "Word"@,
        TokenType::AssignmentWord => "AssignmentWord"@,
        TokenType::Number => "Number"@,
        TokenType::Newline => "Newline"@,
        TokenType::Pipe => "Pipe"@,
        TokenType::PipeBoth => "PipeBoth"@,
        TokenType::And => "And"@,
        TokenType::Or => "Or"@,
        TokenType::Semi => "Semi"@,
        TokenType::DoubleSemi => "DoubleSemi"@,
        TokenType::SemiAnd => "SemiAnd"@,
        TokenType::SemiSemiAnd => "SemiSemiAnd"@,
        TokenType::Ampersand => "Ampersand"@,
        TokenType::LeftParen => "LeftParen"@,
        TokenType::RightParen => "RightParen"@,
        TokenType::LeftBrace => "LeftBrace"@,
        TokenType::RightBrace => "RightBrace"@,
        TokenType::DoubleLeftBracket => "DoubleLeftBracket"@,
        TokenType::DoubleRightBracket => "DoubleRightBracket"@,
        TokenType::Less => "Less"@,
        TokenType::Greater => "Greater"@,
        TokenType::DoubleLess => "DoubleLess"@,
        TokenType::DoubleGreater => "DoubleGreater"@,
        TokenType::LessAnd => "LessAnd"@,
        TokenType::GreaterAnd => "GreaterAnd"@,
        TokenType::LessGreater => "LessGreater"@,
        TokenType::DoubleLessDash => "DoubleLessDash"@,
        TokenType::TripleLess => "TripleLess"@,
        TokenType::GreaterPipe => "GreaterPipe"@,
        TokenType::AndGreater => "AndGreater"@,
        TokenType::AndDoubleGreater => "AndDoubleGreater"@,
        TokenType::Bang => "Bang"@,
        TokenType::If => "If"@,
        TokenType::Then => "Then"@,
        TokenType::Else => "Else"@,
        TokenType::Elif => "Elif"@,
        TokenType::Fi => "Fi"@,
        TokenType::Do => "Do"@,
        TokenType::Done => "Done"@,
        TokenType::Case => "Case"@,
        TokenType::Esac => "Esac"@,
        TokenType::While => "While"@,
        TokenType::Until => "Until"@,
        TokenType::For => "For"@,
        TokenType::Select => "Select"@,
        TokenType::In => "In"@,
        TokenType::Function => "Function"@,
        TokenType::Time => "Time"@,
        TokenType::Coproc => "Coproc"@,
    }
}

/// The name of a token type, as it is written in the source of this crate.
pub fn token_type_name(t: TokenType) -> (r: &'static str)
    ensures
        r@ == token_type_name_spec(t),
{
    match t {
        TokenType::Eof => "Eof",
        TokenType::Word => "Word",
        TokenType::AssignmentWord => "AssignmentWord",
        TokenType::Number => "Number",
        TokenType::Newline => "Newline",
        TokenType::Pipe => "Pipe",
        TokenType::PipeBoth => "PipeBoth",
        TokenType::And => "And",
        TokenType::Or => "Or",
        TokenType::Semi => "Semi",
        TokenType::DoubleSemi => "DoubleSemi",
        TokenType::SemiAnd => "SemiAnd",
        TokenType::SemiSemiAnd => "SemiSemiAnd",
        TokenType::Ampersand => "Ampersand",
        TokenType::LeftParen => "LeftParen",
        TokenType::RightParen => "RightParen",
        TokenType::LeftBrace => "LeftBrace",
        TokenType::RightBrace => "RightBrace",
        TokenType::DoubleLeftBracket => "DoubleLeftBracket",
        TokenType::DoubleRightBracket => "DoubleRightBracket",
        TokenType::Less => "Less",
        TokenType::Greater => "Greater",
        TokenType::DoubleLess => "DoubleLess",
        TokenType::DoubleGreater => "DoubleGreater",
        TokenType::LessAnd => "LessAnd",
        TokenType::GreaterAnd => "GreaterAnd",
        TokenType::LessGreater => "LessGreater",
        TokenType::DoubleLessDash => "DoubleLessDash",
        TokenType::TripleLess => "TripleLess",
        TokenType::GreaterPipe => "GreaterPipe",
        TokenType::AndGreater => "AndGreater",
        TokenType::AndDoubleGreater => "AndDoubleGreater",
        TokenType::Bang => "Bang",
        TokenType::If => "If",
        TokenType::Then => "Then",
        TokenType::Else => "Else",
        TokenType::Elif => "Elif",
        TokenType::Fi => "Fi",
        TokenType::Do => "Do",
        TokenType::Done => "Done",
        TokenType::Case => "Case",
        TokenType::Esac => "Esac",
        TokenType::While => "While",
        TokenType::Until => "Until",
        TokenType::For => "For",
        TokenType::Select => "Select",
        TokenType::In => "In",
        TokenType::Function => "Function",
        TokenType::Time => "Time",
        TokenType::Coproc => "Coproc",
    }
}

/// How `{:?}` writes one character inside a quoted string.
pub open spec fn debug_char(c: char) -> Seq<char> {
    if c == '\\' { seq!['\\', '\\'] }
    else if c == '"' { seq!['\\', '"'] }
    else if c == '\n' { seq!['\\', 'n'] }
    else if c == '\r' { seq!['\\', 'r'] }
    else if c == '\t' { seq!['\\', 't'] }
    else if c == '\0' { seq!['\\', '0'] }
    else { seq![c] }
}

/// The characters of `s` each written by `debug_char`.
pub open spec fn debug_chars(s: Seq<char>) -> Seq<char>
    decreases s.len(),
{
    if s.len() == 0 { Seq::empty() } else { debug_chars(s.drop_last()) + debug_char(s.last()) }
}

/// A string written the way `{:?}` writes it: quoted, with `\\`, `"`,
/// newline, carriage return, tab and NUL escaped.
pub fn quoted_debug(s: &String) -> (r: String)
    ensures
        r@ == seq!['"'] + debug_chars(s@) + seq!['"'],
{
    let cs = crate::text::chars_of(s.as_str());
    let mut out: Vec<char> = Vec::new();
    out.push('"');
    let mut i: usize = 0;
    while i < cs.len()
        invariant
            i <= cs@.len(),
            cs@ == s@,
            out@ == seq!['"'] + debug_chars(cs@.subrange(0, i as int)),
        decreases cs.len() - i,
    {
        let ghost before = out@;
        proof {
            let cur = cs@.subrange(0, i + 1);
            assert(cur.drop_last() =~= cs@.subrange(0, i as int));
            assert(cur.last() == cs@[i as int]);
        }
        let c = cs[i];
        if c == '\\' {
            out.push('\\');
            out.push('\\');
        } else if c == '"' {
            out.push('\\');
            out.push('"');
        } else if c == '\n' {
            out.push('\\');
            out.push('n');
        } else if c == '\r' {
            out.push('\\');
            out.push('r');
        } else if c == '\t' {
            out.push('\\');
            out.push('t');
        } else if c == '\0' {
            out.push('\\');
            out.push('0');
        } else {
            out.push(c);
        }
        assert(out@ =~= before + debug_char(c));
        i = i + 1;
    }
    assert(cs@.subrange(0, cs@.len() as int) =~= cs@);
    out.push('"');
    string_from_chars(out.as_slice())
}

/// A token is read ahead and more than `k` steps of the budget remain.
pub open spec fn ready(p: Parser, k: nat) -> bool {
    p.lexer.peeked is Some && p.lexer.fuel.budget > k
}

/// A token that ends the word list after `for NAME in`.
pub open spec fn word_list_ends(k: TokenType) -> bool {
    k == TokenType::Eof || k == TokenType::Semi || k == TokenType::Newline || k == TokenType::Do || k == TokenType::LeftBrace
}

/// Nothing is read ahead, only blanks are left, and at least `k` steps.
pub open spec fn blank_ahead(p: Parser, k: int) -> bool {
    p.lexer.peeked is None && crate::lexer::blank_rest(p.lexer) && p.lexer.fuel.budget >= k
}

/// `b` still holds the token read ahead in `a`, after at most `k` steps.
pub open spec fn looked(a: Parser, b: Parser, k: nat) -> bool {
    &&& b.lexer == (Lexer { fuel: b.lexer.fuel, ..a.lexer })
    &&& b.lexer.fuel.budget + k >= a.lexer.fuel.budget
}

impl Parser {
    /// A parser reading tokens from `lexer`.
    pub fn new(lexer: Lexer) -> (r: Self)
        ensures
            r.lexer == lexer,
            r.depth == 0,
    {
        Parser { lexer, depth: 0 }
    }

    fn parse_cmdsub_body_inner(&mut self) -> (r: Result<()>)
        requires
            old(self).lexer.wf(),
        ensures
            parser_same_source(*old(self), *final(self)),
            r is Ok ==> final(self).depth == old(self).depth,
        decreases old(self).lexer.fuel.budget,
    {
        self.lexer.tick()?;
        self.skip_newlines()?;
        if !self.peek_is(TokenType::RightParen)? {
            let _ = self.parse_list()?;
        }
        self.expect(TokenType::RightParen)?;
        Ok(())
    }

    fn parse_backtick_body_inner(&mut self) -> (r: Result<()>)
        requires
            old(self).lexer.wf(),
        ensures
            parser_same_source(*old(self), *final(self)),
            r is Ok ==> final(self).depth == old(self).depth,
        decreases old(self).lexer.fuel.budget,
    {
        self.lexer.tick()?;
        self.skip_newlines()?;
        if !self.at_end()? {
            let _ = self.parse_list()?;
        }
        self.lexer.exit_backtick_fork()
    }

    /// Parses the entire input, returning the top-level nodes.
    pub fn parse_all(&mut self) -> (r: Result<Vec<Node>>)
        requires
            old(self).lexer.wf(),
        ensures
            parser_same_source(*old(self), *final(self)),
            r is Ok ==> final(self).depth == old(self).depth,
            blank_ahead(*old(self), 12) ==> (r matches Ok(v) && v@.len() == 0),
            plain_ahead(old(self).lexer) && doc_lines(toks(*old(self))) is Some
                && fuel_for(*old(self), 256, 200) && old(self).depth + 1 < MAX_DEPTH
                ==> (r matches Ok(v) && lines_of(v@, doc_lines(toks(*old(self)))->0)),
        decreases old(self).lexer.fuel.budget,
    {
        let ghost pw = plain_ahead(old(self).lexer) && doc_lines(toks(*old(self))) is Some
            && fuel_for(*old(self), 256, 200) && old(self).depth + 1 < MAX_DEPTH;
        let ghost t0 = toks(*old(self));
        let ghost dl = doc_lines(t0)->0;
        proof {
            if pw {
                plain::lemma_drop_newlines(t0);
            }
        }
        self.lexer.tick()?;
        let mut nodes: Vec<Node> = Vec::new();
        self.skip_newlines()?;
        loop
            invariant_except_break
                blank_ahead(*old(self), 12) ==> crate::lexer::eof_peeked(self.lexer) && nodes@.len() == 0
                    && self.lexer.fuel.budget + 7 >= old(self).lexer.fuel.budget,
                pw ==> plain_ready(*self) && nodes@.len() <= dl.len()
                    && (forall|m: int| 0 <= m < nodes@.len()
                        ==> #[trigger] semi_list_of(nodes@[m], dl[m], list_starts(dl[m], 0)))
                    && doc_lines(toks(*self)) == Some(dl.subrange(nodes@.len() as int, dl.len() as int))
                    && (toks(*self).len() > 0 ==> !(toks(*self)[0] is Newline))
                    && spent_on(*old(self), *self, 256, 21),
            invariant
                parser_same_source(*old(self), *self),
                self.depth == old(self).depth,
                pw == (plain_ahead(old(self).lexer) && doc_lines(toks(*old(self))) is Some
                    && fuel_for(*old(self), 256, 200) && old(self).depth + 1 < MAX_DEPTH),
                t0 == toks(*old(self)),
                dl == doc_lines(t0)->0,
            ensures
                parser_same_source(*old(self), *self),
                self.depth == old(self).depth,
                blank_ahead(*old(self), 12) ==> nodes@.len() == 0,
                pw ==> lines_of(nodes@, dl),
            decreases self.lexer.fuel.budget,
        {
            proof {
                if pw {
                    lemma_peeked_first(*self);
                }
            }
            self.lexer.tick()?;
            if self.at_end()? {
                proof {
                    if pw {
                        assert(dl.subrange(nodes@.len() as int, dl.len() as int).len() == 0);
                    }
                }
                break;
            }
            let prev_pos = self.lexer.pos();
            let ghost tb = toks(*self);
            proof {
                if pw {
                    let rest = doc_lines(tb.subrange(list_end(tb, 0), tb.len() as int));
                    assert(rest is Some);
                    assert(dl.subrange(nodes@.len() as int, dl.len() as int) == seq![tb] + rest->0);
                    let sub = dl.subrange(nodes@.len() as int, dl.len() as int);
                    assert(sub[0] == dl[nodes@.len() as int]);
                    assert((seq![tb] + rest->0)[0] == tb);
                    assert(dl[nodes@.len() as int] == tb);
                    assert(sub.drop_first() =~= dl.subrange(nodes@.len() as int + 1, dl.len() as int));
                    assert((seq![tb] + rest->0).drop_first() =~= rest->0);
                    assert(rest->0 =~= dl.subrange(nodes@.len() as int + 1, dl.len() as int));
                    plain::lemma_list_end(tb, 0);
                }
            }
            let node = self.parse_top_level_list()?;
            proof {
                if pw {
                    plain::lemma_drop_newlines(toks(*self));
                }
            }
            self.skip_newlines()?;
            let node = fill_heredoc_contents(node, &mut self.lexer)?;
            let ghost k = nodes@.len();
            let ghost before = nodes@;
            nodes.push(node);
            proof {
                if pw {
                    assert(nodes@[k as int] == node);
                    assert forall|m: int| 0 <= m < nodes@.len()
                        implies #[trigger] semi_list_of(nodes@[m], dl[m], list_starts(dl[m], 0)) by {
                        if m < k {
                            assert(nodes@[m] == before[m]);
                        }
                    }
                }
            }
            if self.lexer.pos() == prev_pos && !self.at_end()? {
                self.lexer.next_token()?;
            }
        }
        Ok(nodes)
    }

    /// Position of the next token, without consuming it.
    pub fn peek_pos(&mut self) -> (r: Result<usize>)
        requires
            old(self).lexer.wf(),
        ensures
            parser_same_source(*old(self), *final(self)),
            final(self).depth == old(self).depth,
            r is Ok ==> final(self).lexer.peeked is Some && final(self).lexer.peeked->0.pos == r->Ok_0,
            ready(*old(self), 3) ==> r is Ok && looked(*old(self), *final(self), 3),
        decreases old(self).lexer.fuel.budget,
    {
        self.lexer.tick()?;
        Ok(self.lexer.peek_token()?.pos)
    }

    /// Kind of the next token, without consuming it.
    pub fn peek_kind(&mut self) -> (r: Result<TokenType>)
        requires
            old(self).lexer.wf(),
        ensures
            parser_same_source(*old(self), *final(self)),
            final(self).depth == old(self).depth,
            r is Ok && old(self).lexer.peeked is Some ==> final(self).lexer.peeked == old(self).lexer.peeked,
            r is Ok ==> final(self).lexer.peeked is Some && final(self).lexer.peeked->0.kind == r->Ok_0,
            ready(*old(self), 3) ==> r is Ok && looked(*old(self), *final(self), 3),
        decreases old(self).lexer.fuel.budget,
    {
        self.lexer.tick()?;
        Ok(self.lexer.peek_token()?.kind)
    }

    /// A span from `start` to the end of the last consumed token.
    /// Span offsets are bytes of the source; the lexer counts characters.
    pub fn span_from(&self, start: usize) -> (r: Span)
        ensures
            r.start == crate::text::byte_pos(self.lexer.input@, start as int),
            r.end == crate::text::byte_pos(self.lexer.input@, self.lexer.last_token_end as int),
    {
        Span::new(self.lexer.byte_offset(start), self.lexer.byte_offset(self.lexer.last_token_end()))
    }

    /// A node spanning from character `start` to the end of the last
    /// consumed token, as byte offsets.
    pub fn spanned(&self, start: usize, kind: NodeKind) -> (r: Node)
        ensures
            r.kind == kind,
            r.span.start == crate::text::byte_pos(self.lexer.input@, start as int),
            r.span.end == crate::text::byte_pos(self.lexer.input@, self.lexer.last_token_end as int),
    {
        Node::new(kind, self.span_from(start))
    }

    /// True when the next token is the end of input.
    pub fn at_end(&mut self) -> (r: Result<bool>)
        requires
            old(self).lexer.wf(),
        ensures
            parser_same_source(*old(self), *final(self)),
            final(self).depth == old(self).depth,
            r is Ok ==> final(self).lexer.peeked is Some
                && (r->Ok_0 <==> final(self).lexer.peeked->0.kind == TokenType::Eof),
            ready(*old(self), 3) ==> r is Ok && looked(*old(self), *final(self), 3),
            blank_ahead(*old(self), 4) ==> r == Ok::<bool, RableError>(true) && crate::lexer::eof_peeked(final(self).lexer)
                && final(self).lexer.fuel.budget + 4 >= old(self).lexer.fuel.budget,
            plain_ahead(old(self).lexer) && fuel_for_rest(old(self).lexer, 11) ==> r is Ok && plain_ready(*final(self))
                && toks(*final(self)) == toks(*old(self)) && spent(old(self).lexer, final(self).lexer, 11)
                && (r->Ok_0 <==> toks(*old(self)).len() == 0)
                && (old(self).lexer.peeked is None && toks(*old(self)).len() > 0 ==> final(self).lexer.pos > old(self).lexer.pos),
        decreases old(self).lexer.fuel.budget,
    {
        self.lexer.tick()?;
        let r = self.lexer.peek_token()?.kind == TokenType::Eof;
        proof {
            if plain_ahead(old(self).lexer) && fuel_for_rest(old(self).lexer, 11) {
                lemma_peeked_first(*self);
            }
        }
        Ok(r)
    }

    /// Consumes newline tokens; the next token is then not a newline.
    pub fn skip_newlines(&mut self) -> (r: Result<()>)
        requires
            old(self).lexer.wf(),
        ensures
            parser_same_source(*old(self), *final(self)),
            final(self).depth == old(self).depth,
            r is Ok ==> final(self).lexer.peeked is Some
                && final(self).lexer.peeked->0.kind != TokenType::Newline,
            ready(*old(self), 8) && old(self).lexer.peeked->0.kind != TokenType::Newline ==> r is Ok && looked(*old(self), *final(self), 8),
            blank_ahead(*old(self), 6) ==> r is Ok && crate::lexer::eof_peeked(final(self).lexer)
                && final(self).lexer.fuel.budget + 6 >= old(self).lexer.fuel.budget,
            plain_ahead(old(self).lexer) && fuel_for_rest(old(self).lexer, 20) && toks(*old(self)).len() > 0
                && toks(*old(self))[0] is Word ==> r is Ok && plain_ready(*final(self))
                    && toks(*final(self)) == toks(*old(self)) && spent(old(self).lexer, final(self).lexer, 20)
                    && (old(self).lexer.peeked is None ==> final(self).lexer.pos > old(self).lexer.pos),
            plain_ahead(old(self).lexer) && fuel_for(*old(self), 32, 20) ==> r is Ok && plain_ready(*final(self))
                && toks(*final(self)) == drop_newlines(toks(*old(self))) && spent_on(*old(self), *final(self), 32, 20),
        decreases old(self).lexer.fuel.budget,
    {
        let ghost pw = plain_ahead(old(self).lexer) && fuel_for_rest(old(self).lexer, 20) && toks(*old(self)).len() > 0
            && toks(*old(self))[0] is Word;
        let ghost pn = plain_ahead(old(self).lexer) && fuel_for(*old(self), 32, 20);
        self.lexer.tick()?;
        loop
            invariant_except_break
                ready(*old(self), 8) && old(self).lexer.peeked->0.kind != TokenType::Newline
                    ==> looked(*old(self), *self, 1),
                pw ==> self.lexer == (Lexer { fuel: self.lexer.fuel, ..old(self).lexer })
                    && self.lexer.fuel.budget + 1 == old(self).lexer.fuel.budget,
                blank_ahead(*old(self), 6) ==> blank_ahead(*self, 5) && self.lexer.fuel.budget + 1 == old(self).lexer.fuel.budget,
                pn ==> plain_ahead(self.lexer) && drop_newlines(toks(*self)) == drop_newlines(toks(*old(self)))
                    && spent_on(*old(self), *self, 32, 1),
            invariant
                parser_same_source(*old(self), *self),
                self.depth == old(self).depth,
                self.lexer.fuel.budget < old(self).lexer.fuel.budget,
                pw == (plain_ahead(old(self).lexer) && fuel_for_rest(old(self).lexer, 20) && toks(*old(self)).len() > 0
                    && toks(*old(self))[0] is Word),
                pn == (plain_ahead(old(self).lexer) && fuel_for(*old(self), 32, 20)),
            ensures
                self.lexer.peeked is Some && self.lexer.peeked->0.kind != TokenType::Newline,
                ready(*old(self), 8) && old(self).lexer.peeked->0.kind != TokenType::Newline
                    ==> looked(*old(self), *self, 8),
                blank_ahead(*old(self), 6) ==> crate::lexer::eof_peeked(self.lexer)
                    && self.lexer.fuel.budget + 6 >= old(self).lexer.fuel.budget,
                pw ==> plain_ready(*self) && toks(*self) == toks(*old(self)) && spent(old(self).lexer, self.lexer, 20)
                    && (old(self).lexer.peeked is None ==> self.lexer.pos > old(self).lexer.pos),
                pn ==> plain_ready(*self) && toks(*self) == drop_newlines(toks(*old(self)))
                    && spent_on(*old(self), *self, 32, 20),
            decreases self.lexer.fuel.budget,
        {
            self.lexer.tick()?;
            if self.at_end()? {
                break;
            }
            proof {
                if pw || pn {
                    lemma_peeked_first(*self);
                }
            }
            if self.peek_kind()? != TokenType::Newline {
                break;
            }
            self.lexer.next_token()?;
            proof {
                if pn {
                    assert(drop_newlines(toks(*self)) == drop_newlines(toks(*old(self))));
                }
            }
        }
        Ok(())
    }

    /// Enters one level of nesting; fails beyond [`MAX_DEPTH`].
    pub fn enter(&mut self) -> (r: Result<()>)
        requires
            old(self).lexer.wf(),
        ensures
            parser_same_source(*old(self), *final(self)),
            final(self).lexer.pos == old(self).lexer.pos,
            final(self).lexer.fuel == old(self).lexer.fuel,
            final(self).lexer == (Lexer { parser_depth: final(self).depth, ..old(self).lexer }),
            r is Ok <==> final(self).depth <= MAX_DEPTH,
            old(self).depth < MAX_DEPTH ==> final(self).depth == old(self).depth + 1,
            r is Ok ==> final(self).depth == old(self).depth + 1,
            r matches Err(e) ==> e is Parse && e.spec_pos() == old(self).lexer.pos,
    {
        self.depth = self.depth.saturating_add(1);
        let d = self.depth;
        self.lexer.set_parser_depth(d);
        if self.depth > MAX_DEPTH {
            return Err(RableError::parse("maximum parsing depth exceeded", self.lexer.pos(), self.lexer.line()));
        }
        Ok(())
    }

    /// Leaves one level of nesting.
    pub fn leave(&mut self)
        requires
            old(self).lexer.wf(),
        ensures
            parser_same_source(*old(self), *final(self)),
            final(self).lexer.pos == old(self).lexer.pos,
            final(self).lexer.fuel == old(self).lexer.fuel,
            final(self).depth == if old(self).depth > 0 { old(self).depth - 1 } else { 0 },
            final(self).lexer == (Lexer { parser_depth: final(self).depth, ..old(self).lexer }),
    {
        self.depth = self.depth.saturating_sub(1);
        let d = self.depth;
        self.lexer.set_parser_depth(d);
    }

    /// True when the next token has the given kind.
    pub fn peek_is(&mut self, kind: TokenType) -> (r: Result<bool>)
        requires
            old(self).lexer.wf(),
        ensures
            parser_same_source(*old(self), *final(self)),
            final(self).depth == old(self).depth,
            r is Ok ==> final(self).lexer.peeked is Some
                && (r->Ok_0 <==> final(self).lexer.peeked->0.kind == kind),
            r is Ok && old(self).lexer.peeked is Some ==> final(self).lexer.peeked == old(self).lexer.peeked,
            ready(*old(self), 4) ==> r is Ok && looked(*old(self), *final(self), 4),
        decreases old(self).lexer.fuel.budget,
    {
        self.lexer.tick()?;
        Ok(self.peek_kind()? == kind)
    }

    /// Consumes the next token, which must have the given kind.
    pub fn expect(&mut self, kind: TokenType) -> (r: Result<Token>)
        requires
            old(self).lexer.wf(),
        ensures
            parser_same_source(*old(self), *final(self)),
            final(self).depth == old(self).depth,
            r is Ok ==> r->Ok_0.kind == kind,
            ready(*old(self), 2) ==> (r is Ok <==> old(self).lexer.peeked->0.kind == kind),
            ready(*old(self), 2) && r is Ok ==> r->Ok_0 == old(self).lexer.peeked->0,
        decreases old(self).lexer.fuel.budget,
    {
        self.lexer.tick()?;
        let tok = self.lexer.next_token()?;
        if tok.kind != kind {
            let mut m = "expected ".to_string();
            m.append(token_type_name(kind));
            m.append(", got ");
            m.append(token_type_name(tok.kind));
            return Err(RableError::parse(m.as_str(), tok.pos, tok.line));
        }
        Ok(tok)
    }

    /// Consumes a closing delimiter that may come as its own token type or
    /// as a plain word spelled `value` (used for `}` and `]]`).
    pub fn expect_closing(&mut self, kind: TokenType, value: &str) -> (r: Result<Token>)
        requires
            old(self).lexer.wf(),
        ensures
            parser_same_source(*old(self), *final(self)),
            r is Ok ==> final(self).depth == old(self).depth,
            r is Ok ==> r->Ok_0.kind == kind || (r->Ok_0.kind == TokenType::Word && r->Ok_0.value@
                == value@),
            ready(*old(self), 2) ==> (r is Ok <==> (old(self).lexer.peeked->0.kind == kind || (old(self).lexer.peeked->0.kind == TokenType::Word && old(self).lexer.peeked->0.value@ == value@))),
            ready(*old(self), 2) && r is Ok ==> r->Ok_0 == old(self).lexer.peeked->0,
        decreases old(self).lexer.fuel.budget,
    {
        self.lexer.tick()?;
        let tok = self.lexer.next_token()?;
        if tok.kind == kind || (tok.kind == TokenType::Word && string_is(&tok.value, value)) {
            Ok(tok)
        } else {
            let mut m = "expected ".to_string();
            m.append(value);
            m.append(", got ");
            let q = quoted_debug(&tok.value);
            m.append(q.as_str());
            Err(RableError::parse(m.as_str(), tok.pos, tok.line))
        }
    }

    /// True when the next token is `(` immediately followed by another `(`.
    pub fn is_double_paren(&mut self) -> (r: Result<bool>)
        requires
            old(self).lexer.wf(),
        ensures
            parser_same_source(*old(self), *final(self)),
            final(self).depth == old(self).depth,
            r is Ok ==> final(self).lexer.peeked is Some && (r->Ok_0 <==> (final(self).lexer.peeked->0.kind
                == TokenType::LeftParen && final(self).lexer.char_at(final(self).lexer.pos as int) == Some('('))),
            ready(*old(self), 4) ==> r is Ok && looked(*old(self), *final(self), 4),
        decreases old(self).lexer.fuel.budget,
    {
        self.lexer.tick()?;
        if self.peek_kind()? != TokenType::LeftParen {
            return Ok(false);
        }
        Ok(self.lexer.char_after_peeked() == Some('('))
    }

    /// True if the next token closes an enclosing compound construct.
    pub fn is_list_terminator(&mut self) -> (r: Result<bool>)
        requires
            old(self).lexer.wf(),
        ensures
            parser_same_source(*old(self), *final(self)),
            final(self).depth == old(self).depth,
            r is Ok ==> final(self).lexer.peeked is Some
                && (r->Ok_0 <==> spec_is_list_terminator(final(self).lexer.peeked->0)),
            ready(*old(self), 3) ==> r is Ok && looked(*old(self), *final(self), 3),
        decreases old(self).lexer.fuel.budget,
    {
        self.lexer.tick()?;
        let tok = self.lexer.peek_token()?;
        let v = crate::text::chars_of(tok.value.as_str());
        if tok.kind == TokenType::Word && (crate::text::eq1(v.as_slice(), '}') || crate::text::eq2(v.as_slice(), ']', ']')) {
            return Ok(true);
        }
        Ok(match tok.kind {
            TokenType::Eof | TokenType::Fi | TokenType::Done | TokenType::Esac
            | TokenType::RightParen | TokenType::RightBrace | TokenType::DoubleSemi
            | TokenType::SemiAnd | TokenType::SemiSemiAnd | TokenType::Then | TokenType::Else
            | TokenType::Elif | TokenType::Do => true,
            _ => false,
        })
    }

    /// Reads the words after `in` in a `for`/`select` header, up to `;`,
    /// newline, `do`, `{` or end of input.
    pub fn parse_in_word_list(&mut self) -> (r: Result<Vec<Node>>)
        requires
            old(self).lexer.wf(),
        ensures
            parser_same_source(*old(self), *final(self)),
            r is Ok ==> final(self).depth == old(self).depth,
            r is Ok ==> forall|i: int| 0 <= i < r->Ok_0@.len() ==> (#[trigger] r->Ok_0@[i]).kind is Word,
            ready(*old(self), 8) && word_list_ends(old(self).lexer.peeked->0.kind) ==> (r matches Ok(v) && v@.len() == 0)
                && looked(*old(self), *final(self), 8),
        decreases old(self).lexer.fuel.budget,
    {
        self.lexer.tick()?;
        let mut ws: Vec<Node> = Vec::new();
        loop
            invariant_except_break
                ready(*old(self), 8) && word_list_ends(old(self).lexer.peeked->0.kind) ==> ws@.len() == 0
                    && self.lexer == (Lexer { fuel: self.lexer.fuel, ..old(self).lexer }) && self.lexer.fuel.budget + 1 == old(self).lexer.fuel.budget,
            invariant
                parser_same_source(*old(self), *self),
                self.depth == old(self).depth,
                self.lexer.fuel.budget < old(self).lexer.fuel.budget,
                forall|i: int| 0 <= i < ws@.len() ==> (#[trigger] ws@[i]).kind is Word,
            ensures
                parser_same_source(*old(self), *self),
                self.depth == old(self).depth,
                forall|i: int| 0 <= i < ws@.len() ==> (#[trigger] ws@[i]).kind is Word,
                ready(*old(self), 8) && word_list_ends(old(self).lexer.peeked->0.kind) ==> ws@.len() == 0
                    && looked(*old(self), *self, 8),
            decreases self.lexer.fuel.budget,
        {
            self.lexer.tick()?;
            if self.at_end()? {
                break;
            }
            let k = self.peek_kind()?;
            if k == TokenType::Semi || k == TokenType::Newline || k == TokenType::Do || k == TokenType::LeftBrace {
                break;
            }
            let tok = self.lexer.next_token()?;
            let w = word_node_from_token(tok, &mut self.lexer.fuel)?;
            ws.push(w);
        }
        Ok(ws)
    }
}

} // verus!
