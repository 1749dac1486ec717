//! Tokens produced by the lexer.
use vstd::prelude::*;
use crate::lexer::word_builder::WordSpan;
use crate::text::{chars_of, eq1, eq2, eq3, eq4, eq5, eq6, eq8};

verus! {

/// Token types produced by the lexer.
#[derive(Debug, Clone, Copy, PartialEq, Eq, Structural)]
pub enum TokenType {
    Eof,
    Word,
    AssignmentWord,
    Number,
    Newline,
    Pipe,
    PipeBoth,
    And,
    Or,
    Semi,
    DoubleSemi,
    SemiAnd,
    SemiSemiAnd,
    Ampersand,
    LeftParen,
    RightParen,
    LeftBrace,
    RightBrace,
    DoubleLeftBracket,
    DoubleRightBracket,
    Less,
    Greater,
    DoubleLess,
    DoubleGreater,
    LessAnd,
    GreaterAnd,
    LessGreater,
    DoubleLessDash,
    TripleLess,
    GreaterPipe,
    AndGreater,
    AndDoubleGreater,
    Bang,
    If,
    Then,
    Else,
    Elif,
    Fi,
    Do,
    Done,
    Case,
    Esac,
    While,
    Until,
    For,
    Select,
    In,
    Function,
    Time,
    Coproc,
}

/// The reserved word (or reserved punctuation) spelled by `s`, if any.
pub open spec fn spec_reserved_word(s: Seq<char>) -> Option<TokenType> {
    if s == seq!['i', 'f'] { Some(TokenType::If) }
    else if s == seq!['t', 'h', 'e', 'n'] { Some(TokenType::Then) }
    else if s == seq!['e', 'l', 's', 'e'] { Some(TokenType::Else) }
    else if s == seq!['e', 'l', 'i', 'f'] { Some(TokenType::Elif) }
    else if s == seq!['f', 'i'] { Some(TokenType::Fi) }
    else if s == seq!['d', 'o'] { Some(TokenType::Do) }
    else if s == seq!['d', 'o', 'n', 'e'] { Some(TokenType::Done) }
    else if s == seq!['c', 'a', 's', 'e'] { Some(TokenType::Case) }
    else if s == seq!['e', 's', 'a', 'c'] { Some(TokenType::Esac) }
    else if s == seq!['w', 'h', 'i', 'l', 'e'] { Some(TokenType::While) }
    else if s == seq!['u', 'n', 't', 'i', 'l'] { Some(TokenType::Until) }
    else if s == seq!['f', 'o', 'r'] { Some(TokenType::For) }
    else if s == seq!['s', 'e', 'l', 'e', 'c', 't'] { Some(TokenType::Select) }
    else if s == seq!['i', 'n'] { Some(TokenType::In) }
    else if s == seq!['f', 'u', 'n', 'c', 't', 'i', 'o', 'n'] { Some(TokenType::Function) }
    else if s == seq!['t', 'i', 'm', 'e'] { Some(TokenType::Time) }
    else if s == seq!['c', 'o', 'p', 'r', 'o', 'c'] { Some(TokenType::Coproc) }
    else if s == seq!['!'] { Some(TokenType::Bang) }
    else if s == seq!['{'] { Some(TokenType::LeftBrace) }
    else if s == seq!['}'] { Some(TokenType::RightBrace) }
    else if s == seq!['[', '['] { Some(TokenType::DoubleLeftBracket) }
    else if s == seq![']', ']'] { Some(TokenType::DoubleRightBracket) }
    else { None }
}

/// Token types that begin a compound command.
pub open spec fn spec_starts_command(t: TokenType) -> bool {
    match t {
        TokenType::If | TokenType::Case | TokenType::While | TokenType::Until | TokenType::For
        | TokenType::Select | TokenType::LeftParen | TokenType::LeftBrace | TokenType::Function
        | TokenType::Coproc | TokenType::DoubleLeftBracket | TokenType::Bang
        | TokenType::Time => true,
        _ => false,
    }
}

impl TokenType {
    /// Returns the reserved word token type for the given characters, if any.
    pub fn reserved_word_chars(s: &[char]) -> (r: Option<TokenType>)
        ensures
            r == spec_reserved_word(s@),
    {
        if eq2(s, 'i', 'f') { Some(TokenType::If) }
        else if eq4(s, 't', 'h', 'e', 'n') { Some(TokenType::Then) }
        else if eq4(s, 'e', 'l', 's', 'e') { Some(TokenType::Else) }
        else if eq4(s, 'e', 'l', 'i', 'f') { Some(TokenType::Elif) }
        else if eq2(s, 'f', 'i') { Some(TokenType::Fi) }
        else if eq2(s, 'd', 'o') { Some(TokenType::Do) }
        else if eq4(s, 'd', 'o', 'n', 'e') { Some(TokenType::Done) }
        else if eq4(s, 'c', 'a', 's', 'e') { Some(TokenType::Case) }
        else if eq4(s, 'e', 's', 'a', 'c') { Some(TokenType::Esac) }
        else if eq5(s, 'w', 'h', 'i', 'l', 'e') { Some(TokenType::While) }
        else if eq5(s, 'u', 'n', 't', 'i', 'l') { Some(TokenType::Until) }
        else if eq3(s, 'f', 'o', 'r') { Some(TokenType::For) }
        else if eq6(s, 's', 'e', 'l', 'e', 'c', 't') { Some(TokenType::Select) }
        else if eq2(s, 'i', 'n') { Some(TokenType::In) }
        else if eq8(s, 'f', 'u', 'n', 'c', 't', 'i', 'o', 'n') { Some(TokenType::Function) }
        else if eq4(s, 't', 'i', 'm', 'e') { Some(TokenType::Time) }
        else if eq6(s, 'c', 'o', 'p', 'r', 'o', 'c') { Some(TokenType::Coproc) }
        else if eq1(s, '!') { Some(TokenType::Bang) }
        else if eq1(s, '{') { Some(TokenType::LeftBrace) }
        else if eq1(s, '}') { Some(TokenType::RightBrace) }
        else if eq2(s, '[', '[') { Some(TokenType::DoubleLeftBracket) }
        else if eq2(s, ']', ']') { Some(TokenType::DoubleRightBracket) }
        else { None }
    }

    /// Returns the reserved word token type for the given string, if any.
    pub fn reserved_word(s: &str) -> (r: Option<TokenType>)
        ensures
            r == spec_reserved_word(s@),
    {
        let cs = chars_of(s);
        Self::reserved_word_chars(cs.as_slice())
    }

    /// Returns true if this token type starts a compound command.
    pub fn starts_command(self) -> (r: bool)
        ensures
            r == spec_starts_command(self),
    {
        match self {
            TokenType::If | TokenType::Case | TokenType::While | TokenType::Until
            | TokenType::For | TokenType::Select | TokenType::LeftParen | TokenType::LeftBrace
            | TokenType::Function | TokenType::Coproc | TokenType::DoubleLeftBracket
            | TokenType::Bang | TokenType::Time => true,
            _ => false,
        }
    }
}

/// A token produced by the lexer.
#[derive(Debug, Clone)]
pub struct Token {
    pub kind: TokenType,
    pub value: String,
    /// Where the token starts, counted in characters of the source (node
    /// spans, by contrast, count bytes).
    pub pos: usize,
    pub line: usize,
    /// Quoting and expansion spans within the word value (empty for operators).
    pub spans: Vec<WordSpan>,
}

impl Token {
    /// Creates a token with no spans.
    pub fn new(kind: TokenType, value: &str, pos: usize, line: usize) -> (r: Self)
        ensures
            r.kind == kind,
            r.value@ == value@,
            r.pos == pos,
            r.line == line,
            r.spans@.len() == 0,
    {
        Token { kind, value: value.to_string(), pos, line, spans: Vec::new() }
    }

    /// Creates a word token with recorded spans.
    pub fn with_spans(kind: TokenType, value: String, pos: usize, line: usize, spans: Vec<WordSpan>) -> (r: Self)
        ensures
            r.kind == kind,
            r.value == value,
            r.pos == pos,
            r.line == line,
            r.spans == spans,
    {
        Token { kind, value, pos, line, spans }
    }

    /// Returns true if this token ends exactly where `other` starts (no
    /// whitespace between them); positions and lengths count characters.
    pub fn adjacent_to(&self, other: &Self) -> (r: bool)
        ensures
            r == (self.pos + self.value@.len() == other.pos),
    {
        let n = chars_of(self.value.as_str()).len();
        match self.pos.checked_add(n) {
            Some(end) => end == other.pos,
            None => false,
        }
    }

    /// The end-of-input token at the given position.
    pub fn eof(pos: usize, line: usize) -> (r: Self)
        ensures
            r.kind == TokenType::Eof,
            r.value@.len() == 0,
            r.pos == pos,
            r.line == line,
            r.spans@.len() == 0,
    {
        Token { kind: TokenType::Eof, value: String::new(), pos, line, spans: Vec::new() }
    }
}

} // verus!

verus! {

/// Distinct reserved words are distinct token types: a reserved token type
/// names exactly one spelling.
pub proof fn lemma_reserved_word_injective(a: Seq<char>, b: Seq<char>)
    requires
        spec_reserved_word(a) is Some,
        spec_reserved_word(a) == spec_reserved_word(b),
    ensures
        a == b,
{
}

/// A reserved word is never classified as a plain word, an assignment or
/// the end of input.
pub proof fn lemma_reserved_word_kind(s: Seq<char>)
    requires
        spec_reserved_word(s) is Some,
    ensures
        spec_reserved_word(s) != Some(TokenType::Word),
        spec_reserved_word(s) != Some(TokenType::AssignmentWord),
        spec_reserved_word(s) != Some(TokenType::Eof),
{
}

} // verus!
