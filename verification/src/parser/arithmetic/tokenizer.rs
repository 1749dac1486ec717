//! Tokens of arithmetic expressions.
use vstd::prelude::*;
use crate::error::Result;
use crate::text::string_from_chars;
use super::err;

verus! {

/// An arithmetic token.
#[derive(Debug, Clone, PartialEq, Eq)]
pub enum Tok {
    Number(String),
    Ident(String),
    LParen,
    RParen,
    LBracket,
    RBracket,
    Question,
    Colon,
    Comma,
    Bang,
    Tilde,
    Plus,
    Minus,
    Star,
    Slash,
    Percent,
    Power,
    Shl,
    Shr,
    Lt,
    Gt,
    Le,
    Ge,
    EqEq,
    Ne,
    Amp,
    Caret,
    Pipe,
    AmpAmp,
    PipePipe,
    Inc,
    Dec,
    Assign,
    AddAssign,
    SubAssign,
    MulAssign,
    DivAssign,
    ModAssign,
    ShlAssign,
    ShrAssign,
    AndAssign,
    XorAssign,
    OrAssign,
}

/// ASCII white space as `u8::is_ascii_whitespace` defines it.
pub open spec fn is_ascii_ws(c: char) -> bool {
    c == ' ' || c == '\t' || c == '\n' || c == '\u{0C}' || c == '\r'
}

/// An ASCII decimal digit.
pub open spec fn is_digit(c: char) -> bool {
    '0' <= c && c <= '9'
}

/// Tokenizes an arithmetic expression.
pub fn tokenize(source: &[char]) -> (r: Result<Vec<Tok>>)
    ensures
        (forall|i: int| 0 <= i < source@.len() ==> is_ascii_ws(#[trigger] source@[i])) ==> (r matches Ok(v) && v@.len() == 0),
        source@.len() > 0 && (forall|i: int| 0 <= i < source@.len() ==> '0' <= #[trigger] source@[i] <= '9') ==> (r is Ok
            && r->Ok_0@.len() == 1 && r->Ok_0@[0] is Number && r->Ok_0@[0]->Number_0@ == source@),
{
    let ghost digits = source@.len() > 0 && (forall|k: int| 0 <= k < source@.len() ==> '0' <= #[trigger] source@[k] <= '9');
    let mut tokens: Vec<Tok> = Vec::new();
    let mut i: usize = 0;
    while i < source.len()
        invariant
            i <= source@.len(),
            (forall|k: int| 0 <= k < source@.len() ==> is_ascii_ws(#[trigger] source@[k])) ==> tokens@.len() == 0,
            digits == (source@.len() > 0 && (forall|k: int| 0 <= k < source@.len() ==> '0' <= #[trigger] source@[k] <= '9')),
            digits ==> (i == 0 && tokens@.len() == 0) || (i == source@.len() && tokens@.len() == 1 && tokens@[0] is Number
                && tokens@[0]->Number_0@ == source@),
        decreases source.len() - i,
    {
        proof {
            if digits {
                assert('0' <= source@[i as int] <= '9');
            }
        }
        let b = source[i];
        if b == ' ' || b == '\t' || b == '\n' || b == '\u{0C}' || b == '\r' {
            i = i + 1;
            continue;
        }
        let (tok, next) = if '0' <= b && b <= '9' {
            tokenize_number(source, i)
        } else if crate::lexer::words::name_start(b) {
            tokenize_ident(source, i)
        } else if b == '$' {
            tokenize_dollar(source, i)?
        } else {
            tokenize_operator(source, i)?
        };
        tokens.push(tok);
        i = next;
    }
    Ok(tokens)
}

/// A number: hex `0x…`, or decimal digits with an optional `#` and base-N digits.
pub fn tokenize_number(source: &[char], start: usize) -> (r: (Tok, usize))
    requires
        start < source@.len(),
        is_digit(source@[start as int]),
    ensures
        start < r.1 <= source@.len(),
        r.0 is Number,
        r.0->Number_0@ == source@.subrange(start as int, r.1 as int),
        (forall|i: int| start <= i < source@.len() ==> '0' <= #[trigger] source@[i] <= '9') ==> r.1 == source@.len(),
{
    let n = source.len();
    if source[start] == '0' && start + 1 < n && (source[start + 1] == 'x' || source[start + 1] == 'X') {
        let mut end = start + 2;
        while end < n && crate::text::hex_value(source[end]).is_some()
            invariant
                start + 2 <= end <= n,
                n == source@.len(),
            decreases n - end,
        {
            end = end + 1;
        }
        return slice_number(source, start, end);
    }
    let mut end = start;
    while end < n && '0' <= source[end] && source[end] <= '9'
        invariant
            start <= end <= n,
            n == source@.len(),
        decreases n - end,
    {
        end = end + 1;
    }
    if end < n && source[end] == '#' {
        end = end + 1;
        while end < n && is_base_digit(source[end])
            invariant
                start < end <= n,
                n == source@.len(),
            decreases n - end,
        {
            end = end + 1;
        }
    }
    slice_number(source, start, end)
}

/// Digits of a base-N number: ASCII letters and digits, `_` and `@`.
pub fn is_base_digit(c: char) -> (r: bool)
    ensures
        r == (crate::lexer::words::is_name_char(c) || c == '@'),
{
    crate::lexer::words::name_char(c) || c == '@'
}

fn slice_number(source: &[char], start: usize, end: usize) -> (r: (Tok, usize))
    requires
        start < end <= source@.len(),
    ensures
        r.1 == end,
        r.0 is Number,
        r.0->Number_0@ == source@.subrange(start as int, end as int),
{
    let v = match crate::text::slice_chars(source, start, end) {
        Some(v) => v,
        None => Vec::new(),
    };
    (Tok::Number(string_from_chars(v.as_slice())), end)
}

/// An identifier `[A-Za-z_][A-Za-z0-9_]*` starting at `start`.
pub fn tokenize_ident(source: &[char], start: usize) -> (r: (Tok, usize))
    requires
        start < source@.len(),
    ensures
        start < r.1 <= source@.len(),
        r.0 is Ident,
        r.0->Ident_0@ == source@.subrange(start as int, r.1 as int),
{
    let n = source.len();
    let mut end = start + 1;
    while end < n && crate::lexer::words::name_char(source[end])
        invariant
            start < end <= n,
            n == source@.len(),
        decreases n - end,
    {
        end = end + 1;
    }
    let v = match crate::text::slice_chars(source, start, end) {
        Some(v) => v,
        None => Vec::new(),
    };
    (Tok::Ident(string_from_chars(v.as_slice())), end)
}

/// `$name` stands for `name`; other `$` expansions are not supported.
pub fn tokenize_dollar(source: &[char], start: usize) -> (r: Result<(Tok, usize)>)
    requires
        start < source@.len(),
    ensures
        r is Ok ==> start < r->Ok_0.1 <= source@.len() && r->Ok_0.0 is Ident,
        r is Ok <==> start + 1 < source@.len() && crate::lexer::words::is_name_start(source@[start + 1]),
        r is Ok ==> r->Ok_0.0->Ident_0@ == source@.subrange(start + 1, r->Ok_0.1 as int),
{
    let n = source.len();
    let after = start + 1;
    if after >= n {
        return Err(err("trailing '$' in arithmetic expression"));
    }
    if crate::lexer::words::name_start(source[after]) {
        return Ok(tokenize_ident(source, after));
    }
    Err(err("unsupported $-expansion in arithmetic expression"))
}

/// An operator of three, two or one characters, longest first.
pub fn tokenize_operator(source: &[char], start: usize) -> (r: Result<(Tok, usize)>)
    requires
        start < source@.len(),
    ensures
        r is Ok ==> start < r->Ok_0.1 <= source@.len(),
        r is Ok <==> operator_at(source@, start as int) is Some,
        r is Ok ==> (r->Ok_0.0, r->Ok_0.1 as int) == operator_at(source@, start as int)->0,
{
    let n = source.len();
    if start < n && n - start >= 3 {
        match match_three(source[start], source[start + 1], source[start + 2]) {
            Some(t) => return Ok((t, start + 3)),
            None => {},
        }
    }
    if n - start >= 2 {
        match match_two(source[start], source[start + 1]) {
            Some(t) => return Ok((t, start + 2)),
            None => {},
        }
    }
    match match_one(source[start]) {
        Some(t) => Ok((t, start + 1)),
        None => {
            let mut m = "unexpected character '".to_string();
            let c = string_from_chars(&[source[start]]);
            m.append(c.as_str());
            m.append("' in arithmetic expression");
            Err(err(m.as_str()))
        }
    }
}

/// The operator spelled by three characters.
pub open spec fn three_char_op(a: char, b: char, c: char) -> Option<Tok> {
    if a == '<' && b == '<' && c == '=' { Some(Tok::ShlAssign) }
    else if a == '>' && b == '>' && c == '=' { Some(Tok::ShrAssign) }
    else { None }
}

/// The operator spelled by two characters.
pub open spec fn two_char_op(a: char, b: char) -> Option<Tok> {
    if a == '*' && b == '*' { Some(Tok::Power) }
    else if a == '<' && b == '<' { Some(Tok::Shl) }
    else if a == '>' && b == '>' { Some(Tok::Shr) }
    else if a == '<' && b == '=' { Some(Tok::Le) }
    else if a == '>' && b == '=' { Some(Tok::Ge) }
    else if a == '=' && b == '=' { Some(Tok::EqEq) }
    else if a == '!' && b == '=' { Some(Tok::Ne) }
    else if a == '&' && b == '&' { Some(Tok::AmpAmp) }
    else if a == '|' && b == '|' { Some(Tok::PipePipe) }
    else if a == '+' && b == '+' { Some(Tok::Inc) }
    else if a == '-' && b == '-' { Some(Tok::Dec) }
    else if a == '+' && b == '=' { Some(Tok::AddAssign) }
    else if a == '-' && b == '=' { Some(Tok::SubAssign) }
    else if a == '*' && b == '=' { Some(Tok::MulAssign) }
    else if a == '/' && b == '=' { Some(Tok::DivAssign) }
    else if a == '%' && b == '=' { Some(Tok::ModAssign) }
    else if a == '&' && b == '=' { Some(Tok::AndAssign) }
    else if a == '^' && b == '=' { Some(Tok::XorAssign) }
    else if a == '|' && b == '=' { Some(Tok::OrAssign) }
    else { None }
}

/// The operator spelled by one character.
pub open spec fn one_char_op(c: char) -> Option<Tok> {
    if c == '+' { Some(Tok::Plus) }
    else if c == '-' { Some(Tok::Minus) }
    else if c == '*' { Some(Tok::Star) }
    else if c == '/' { Some(Tok::Slash) }
    else if c == '%' { Some(Tok::Percent) }
    else if c == '(' { Some(Tok::LParen) }
    else if c == ')' { Some(Tok::RParen) }
    else if c == '[' { Some(Tok::LBracket) }
    else if c == ']' { Some(Tok::RBracket) }
    else if c == '?' { Some(Tok::Question) }
    else if c == ':' { Some(Tok::Colon) }
    else if c == ',' { Some(Tok::Comma) }
    else if c == '!' { Some(Tok::Bang) }
    else if c == '~' { Some(Tok::Tilde) }
    else if c == '<' { Some(Tok::Lt) }
    else if c == '>' { Some(Tok::Gt) }
    else if c == '&' { Some(Tok::Amp) }
    else if c == '^' { Some(Tok::Caret) }
    else if c == '|' { Some(Tok::Pipe) }
    else if c == '=' { Some(Tok::Assign) }
    else { None }
}

/// The longest operator at `start`, with the offset after it.
pub open spec fn operator_at(s: Seq<char>, start: int) -> Option<(Tok, int)> {
    if start + 3 <= s.len() && three_char_op(s[start], s[start + 1], s[start + 2]) is Some {
        Some((three_char_op(s[start], s[start + 1], s[start + 2])->0, start + 3))
    } else if start + 2 <= s.len() && two_char_op(s[start], s[start + 1]) is Some {
        Some((two_char_op(s[start], s[start + 1])->0, start + 2))
    } else if one_char_op(s[start]) is Some {
        Some((one_char_op(s[start])->0, start + 1))
    } else {
        None
    }
}

/// `<<=` and `>>=`.
pub fn match_three(a: char, b: char, c: char) -> (r: Option<Tok>)
    ensures
        r is Some <==> ((a == '<' && b == '<' && c == '=') || (a == '>' && b == '>' && c == '=')),
        r == three_char_op(a, b, c),
{
    if a == '<' && b == '<' && c == '=' {
        Some(Tok::ShlAssign)
    } else if a == '>' && b == '>' && c == '=' {
        Some(Tok::ShrAssign)
    } else {
        None
    }
}

/// Two-character operators.
pub fn match_two(a: char, b: char) -> (r: Option<Tok>)
    ensures
        r == two_char_op(a, b),
{
    if a == '*' && b == '*' { Some(Tok::Power) }
    else if a == '<' && b == '<' { Some(Tok::Shl) }
    else if a == '>' && b == '>' { Some(Tok::Shr) }
    else if a == '<' && b == '=' { Some(Tok::Le) }
    else if a == '>' && b == '=' { Some(Tok::Ge) }
    else if a == '=' && b == '=' { Some(Tok::EqEq) }
    else if a == '!' && b == '=' { Some(Tok::Ne) }
    else if a == '&' && b == '&' { Some(Tok::AmpAmp) }
    else if a == '|' && b == '|' { Some(Tok::PipePipe) }
    else if a == '+' && b == '+' { Some(Tok::Inc) }
    else if a == '-' && b == '-' { Some(Tok::Dec) }
    else if a == '+' && b == '=' { Some(Tok::AddAssign) }
    else if a == '-' && b == '=' { Some(Tok::SubAssign) }
    else if a == '*' && b == '=' { Some(Tok::MulAssign) }
    else if a == '/' && b == '=' { Some(Tok::DivAssign) }
    else if a == '%' && b == '=' { Some(Tok::ModAssign) }
    else if a == '&' && b == '=' { Some(Tok::AndAssign) }
    else if a == '^' && b == '=' { Some(Tok::XorAssign) }
    else if a == '|' && b == '=' { Some(Tok::OrAssign) }
    else { None }
}

/// One-character operators.
pub fn match_one(c: char) -> (r: Option<Tok>)
    ensures
        r == one_char_op(c),
{
    match c {
        '+' => Some(Tok::Plus),
        '-' => Some(Tok::Minus),
        '*' => Some(Tok::Star),
        '/' => Some(Tok::Slash),
        '%' => Some(Tok::Percent),
        '(' => Some(Tok::LParen),
        ')' => Some(Tok::RParen),
        '[' => Some(Tok::LBracket),
        ']' => Some(Tok::RBracket),
        '?' => Some(Tok::Question),
        ':' => Some(Tok::Colon),
        ',' => Some(Tok::Comma),
        '!' => Some(Tok::Bang),
        '~' => Some(Tok::Tilde),
        '<' => Some(Tok::Lt),
        '>' => Some(Tok::Gt),
        '&' => Some(Tok::Amp),
        '^' => Some(Tok::Caret),
        '|' => Some(Tok::Pipe),
        '=' => Some(Tok::Assign),
        _ => None,
    }
}

} // verus!
