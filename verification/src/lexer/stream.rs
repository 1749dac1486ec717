//! The tokens of plain command lines: words made of plain characters, `;`,
//! `|` and newlines, separated by blanks.
use vstd::prelude::*;
use crate::token::{spec_reserved_word, Token, TokenType};
use super::words::{plain_run_end, plain_word_at};
use super::{blanks_end, Lexer};

verus! {

/// A token of a plain command line.
pub enum PlainTok {
    Word(Seq<char>),
    Semi,
    Pipe,
    Newline,
}

/// `t` put before the tokens `rest`, if there are any.
pub open spec fn cons_tok(t: PlainTok, rest: Option<Seq<PlainTok>>) -> Option<Seq<PlainTok>> {
    match rest {
        Some(r) => Some(seq![t] + r),
        None => None,
    }
}

/// The tokens of `s` from `p` on, when the rest of `s` is made only of
/// blanks, plain words that are not reserved words, single `;`, single `|`
/// and newlines; `None` otherwise.
pub open spec fn plain_tokens(s: Seq<char>, p: int) -> Option<Seq<PlainTok>>
    decreases s.len() - p,
{
    let q = blanks_end(s, p);
    if q < p || q > s.len() {
        None
    } else if q == s.len() {
        Some(Seq::empty())
    } else if s[q] == ';' {
        if q + 1 < s.len() && (s[q + 1] == ';' || s[q + 1] == '&') { None } else { cons_tok(PlainTok::Semi, plain_tokens(s, q + 1)) }
    } else if s[q] == '|' {
        if q + 1 < s.len() && (s[q + 1] == '|' || s[q + 1] == '&') { None } else { cons_tok(PlainTok::Pipe, plain_tokens(s, q + 1)) }
    } else if s[q] == '\n' {
        cons_tok(PlainTok::Newline, plain_tokens(s, q + 1))
    } else {
        let e = plain_run_end(s, q);
        if plain_word_at(s, q) && q < e <= s.len() && spec_reserved_word(s.subrange(q, e)) is None {
            cons_tok(PlainTok::Word(s.subrange(q, e)), plain_tokens(s, e))
        } else {
            None
        }
    }
}

/// Each plain token takes at least one character.
pub proof fn lemma_plain_tokens_len(s: Seq<char>, p: int)
    requires
        plain_tokens(s, p) is Some,
    ensures
        plain_tokens(s, p)->0.len() <= s.len() - p,
    decreases s.len() - p,
{
    let q = blanks_end(s, p);
    if q < s.len() {
        if s[q] == ';' || s[q] == '|' || s[q] == '\n' {
            lemma_plain_tokens_len(s, q + 1);
        } else {
            lemma_plain_tokens_len(s, plain_run_end(s, q));
        }
    }
}

/// The lexer token `t` is the plain token `f`.
pub open spec fn token_is(t: Token, f: PlainTok) -> bool {
    match f {
        PlainTok::Word(w) => t.kind == TokenType::Word && t.value@ == w,
        PlainTok::Semi => t.kind == TokenType::Semi,
        PlainTok::Pipe => t.kind == TokenType::Pipe,
        PlainTok::Newline => t.kind == TokenType::Newline,
    }
}

/// From the lexer's position the input is plain tokens, no here-document
/// is waiting for its body, and there are steps enough to read the next.
pub open spec fn plain_next(l: Lexer, extra: int) -> bool {
    &&& l.pending_heredocs@.len() == 0
    &&& plain_tokens(l.input@, l.pos as int) is Some
    &&& l.fuel.budget >= l.input@.len() - l.pos + extra
}

/// `r` is the next of the plain tokens `ts` read by `a` (the end of input
/// when there is none), and `b` is left before the others.
pub open spec fn read_plain(a: Lexer, b: Lexer, r: Token, ts: Seq<PlainTok>) -> bool {
    &&& b.peeked == a.peeked
    &&& b.pending_heredocs == a.pending_heredocs
    &&& b.heredoc_contents == a.heredoc_contents
    &&& a.pos <= b.pos
    &&& ts.len() > 0 ==> a.pos < b.pos
    &&& r.spans@.len() == 0
    &&& b.fuel.budget + (b.pos - a.pos) + 8 >= a.fuel.budget
    &&& ts.len() == 0 ==> r.kind == TokenType::Eof && plain_tokens(b.input@, b.pos as int) == Some(Seq::<PlainTok>::empty())
    &&& ts.len() > 0 ==> token_is(r, ts[0]) && plain_tokens(b.input@, b.pos as int) == Some(ts.drop_first())
}

/// The plain token a lexer token stands for.
pub open spec fn plain_tok_of(t: Token) -> PlainTok {
    if t.kind == TokenType::Semi {
        PlainTok::Semi
    } else if t.kind == TokenType::Pipe {
        PlainTok::Pipe
    } else if t.kind == TokenType::Newline {
        PlainTok::Newline
    } else {
        PlainTok::Word(t.value@)
    }
}

/// A word, `;`, `|` or newline token.
pub open spec fn is_plain_token(t: Token) -> bool {
    t.kind == TokenType::Word || t.kind == TokenType::Semi || t.kind == TokenType::Pipe || t.kind == TokenType::Newline
}

/// The lexer reads plain tokens from its position on, any token it read
/// ahead is one of them (or the end of input when none is left), and no
/// here-document waits for its body or holds one read.
pub open spec fn plain_ahead(l: Lexer) -> bool {
    &&& l.wf()
    &&& l.pending_heredocs@.len() == 0
    &&& l.heredoc_contents@.len() == 0
    &&& plain_tokens(l.input@, l.pos as int) is Some
    &&& match l.peeked {
        None => true,
        Some(t) => t.spans@.len() == 0 && (is_plain_token(t)
            || (t.kind == TokenType::Eof && plain_tokens(l.input@, l.pos as int)->0.len() == 0)),
    }
}

/// The plain tokens still to come, the one read ahead first.
pub open spec fn plain_rest(l: Lexer) -> Seq<PlainTok> {
    let r = plain_tokens(l.input@, l.pos as int)->0;
    match l.peeked {
        Some(t) => if t.kind == TokenType::Eof { r } else { seq![plain_tok_of(t)] + r },
        None => r,
    }
}

/// At least `extra` steps more than the characters left.
pub open spec fn fuel_for_rest(l: Lexer, extra: int) -> bool {
    l.fuel.budget >= l.input@.len() - l.pos + extra
}

/// `b` is `a` after reading: no earlier, and no more steps spent than the
/// characters passed plus `k`.
pub open spec fn spent(a: Lexer, b: Lexer, k: int) -> bool {
    &&& a.pos <= b.pos
    &&& b.fuel.budget + (b.pos - a.pos) + k >= a.fuel.budget
}

} // verus!
