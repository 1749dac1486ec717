//! Errors reported by the parser.
use vstd::prelude::*;

verus! {

/// Errors produced by the bash parser.
#[derive(Debug, Clone)]
pub enum RableError {
    /// A syntax error encountered during parsing.
    Parse { message: String, pos: usize, line: usize },
    /// An unmatched delimiter (parenthesis, brace, bracket, quote) at end of input.
    MatchedPair { message: String, pos: usize, line: usize },
}

/// The decimal digit for `d` (below ten).
pub open spec fn digit_char(d: nat) -> char {
    if d == 0 { '0' } else if d == 1 { '1' } else if d == 2 { '2' } else if d == 3 { '3' }
    else if d == 4 { '4' } else if d == 5 { '5' } else if d == 6 { '6' } else if d == 7 { '7' }
    else if d == 8 { '8' } else { '9' }
}

/// `n` written in decimal, without leading zeros.
pub open spec fn decimal_text(n: nat) -> Seq<char>
    decreases n,
{
    if n < 10 { seq![digit_char(n)] } else { decimal_text(n / 10).push(digit_char(n % 10)) }
}

/// Appends `n` in decimal.
pub fn push_decimal(out: &mut Vec<char>, n: usize)
    ensures
        final(out)@ == old(out)@ + decimal_text(n as nat),
    decreases n,
{
    if n >= 10 {
        push_decimal(out, n / 10);
    }
    let d = n % 10;
    let c = if d == 0 { '0' } else if d == 1 { '1' } else if d == 2 { '2' } else if d == 3 { '3' }
        else if d == 4 { '4' } else if d == 5 { '5' } else if d == 6 { '6' } else if d == 7 { '7' }
        else if d == 8 { '8' } else { '9' };
    out.push(c);
}

/// Result type used throughout the crate.
pub type Result<T> = core::result::Result<T, RableError>;

impl RableError {
    /// The line recorded in either variant.
    pub open spec fn spec_line(&self) -> usize {
        match self {
            RableError::Parse { line, .. } => *line,
            RableError::MatchedPair { line, .. } => *line,
        }
    }

    /// The position recorded in either variant.
    pub open spec fn spec_pos(&self) -> usize {
        match self {
            RableError::Parse { pos, .. } => *pos,
            RableError::MatchedPair { pos, .. } => *pos,
        }
    }

    /// The message recorded in either variant.
    pub open spec fn spec_message(&self) -> Seq<char> {
        match self {
            RableError::Parse { message, .. } => message@,
            RableError::MatchedPair { message, .. } => message@,
        }
    }

    /// Returns the line number where the error occurred (1-based).
    pub fn line(&self) -> (r: usize)
        ensures
            r == self.spec_line(),
    {
        match self {
            RableError::Parse { line, .. } => *line,
            RableError::MatchedPair { line, .. } => *line,
        }
    }

    /// Returns the character position where the error occurred (0-based).
    pub fn pos(&self) -> (r: usize)
        ensures
            r == self.spec_pos(),
    {
        match self {
            RableError::Parse { pos, .. } => *pos,
            RableError::MatchedPair { pos, .. } => *pos,
        }
    }

    /// Returns the error message.
    pub fn message(&self) -> (r: &str)
        ensures
            r@ == self.spec_message(),
    {
        match self {
            RableError::Parse { message, .. } => message.as_str(),
            RableError::MatchedPair { message, .. } => message.as_str(),
        }
    }

    /// Builds a syntax error.
    pub fn parse(message: &str, pos: usize, line: usize) -> (r: Self)
        ensures
            r is Parse,
            r.spec_message() == message@,
            r.spec_pos() == pos,
            r.spec_line() == line,
    {
        RableError::Parse { message: message.to_string(), pos, line }
    }

    /// Builds an unmatched-delimiter error.
    pub fn matched_pair(message: &str, pos: usize, line: usize) -> (r: Self)
        ensures
            r is MatchedPair,
            r.spec_message() == message@,
            r.spec_pos() == pos,
            r.spec_line() == line,
    {
        RableError::MatchedPair { message: message.to_string(), pos, line }
    }

    /// The error as a reader sees it: `parse error at line L, position P: M`
    /// for a syntax error, `unmatched delimiter at line L, position P: M`
    /// for an unmatched delimiter.
    pub open spec fn spec_text(&self) -> Seq<char> {
        (if self is Parse { "parse error at line "@ } else { "unmatched delimiter at line "@ })
            + decimal_text(self.spec_line() as nat) + ", position "@ + decimal_text(self.spec_pos() as nat)
            + ": "@ + self.spec_message()
    }

    /// Formats the error as `spec_text` describes.
    pub fn to_string(&self) -> (r: String)
        ensures
            r@ == self.spec_text(),
    {
        let mut out: Vec<char> = Vec::new();
        match self {
            RableError::Parse { .. } => crate::text::push_str(&mut out, "parse error at line "),
            RableError::MatchedPair { .. } => crate::text::push_str(&mut out, "unmatched delimiter at line "),
        }
        push_decimal(&mut out, self.line());
        crate::text::push_str(&mut out, ", position ");
        push_decimal(&mut out, self.pos());
        crate::text::push_str(&mut out, ": ");
        crate::text::push_str(&mut out, self.message());
        proof {
            assert(out@ =~= self.spec_text());
        }
        crate::text::string_from_chars(out.as_slice())
    }

    /// True for the unmatched-delimiter variant.
    pub fn is_matched_pair(&self) -> (r: bool)
        ensures
            r == (self is MatchedPair),
    {
        match self {
            RableError::MatchedPair { .. } => true,
            _ => false,
        }
    }
}

} // verus!
