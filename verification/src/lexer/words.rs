//! Word tokens: assembly, classification, and the constructs that may
//! appear inside a word.
use vstd::prelude::*;
use crate::error::{RableError, Result};
use crate::text::string_from_chars;
use crate::token::{Token, TokenType, spec_starts_command};
use super::word_builder::{spans_within, WordBuilder, WordSpanKind};
use super::{same_source, Lexer, LexerContext};

verus! {

/// An ASCII letter or `_`.
pub open spec fn is_name_start(c: char) -> bool {
    ('a' <= c && c <= 'z') || ('A' <= c && c <= 'Z') || c == '_'
}

/// An ASCII letter, digit or `_`.
pub open spec fn is_name_char(c: char) -> bool {
    is_name_start(c) || ('0' <= c && c <= '9')
}

/// A character that stands for itself in a word and never starts a
/// quote, expansion, subscript, pattern or assignment.
pub open spec fn is_plain_word_char(c: char) -> bool {
    is_name_char(c) || c == '-' || c == '.' || c == '/' || c == ',' || c == ':'
}

/// The end of the run of plain word characters starting at `p`.
pub open spec fn plain_run_end(s: Seq<char>, p: int) -> int
    decreases s.len() - p,
{
    if 0 <= p < s.len() && is_plain_word_char(s[p]) { plain_run_end(s, p + 1) } else { p }
}

/// A plain word starts at `p`: a run of plain word characters followed by
/// the end of input, a blank, a newline or one of `| & ; )`.
pub open spec fn plain_word_at(s: Seq<char>, p: int) -> bool {
    let e = plain_run_end(s, p);
    &&& 0 <= p < s.len()
    &&& is_plain_word_char(s[p])
    &&& (e >= s.len() || s[e] == ' ' || s[e] == '\t' || s[e] == '\n' || s[e] == '|' || s[e] == '&' || s[e] == ';' || s[e] == ')')
}

/// The kind of a word with no `=` in context `ctx`: a reserved word where
/// reserved words are recognised (`]]` only inside `[[ ]]`), else a word.
pub open spec fn word_kind(ctx: LexerContext, v: Seq<char>) -> TokenType {
    let rw = crate::token::spec_reserved_word(v);
    if ctx.command_start && ctx.reserved_words_ok && rw is Some && !(rw->0 == TokenType::DoubleRightBracket && !ctx.cond_expr) {
        rw->0
    } else {
        TokenType::Word
    }
}

/// Every character before the end of a plain run is a plain word character.
pub proof fn lemma_plain_run(s: Seq<char>, p: int, i: int)
    requires
        0 <= p <= i < plain_run_end(s, p),
    ensures
        is_plain_word_char(s[i]),
    decreases s.len() - p,
{
    if i > p {
        lemma_plain_run(s, p + 1, i);
    }
}

/// A plain run from `p` ends between `p` and the end of `s`.
pub proof fn lemma_plain_run_end_bounds(s: Seq<char>, p: int)
    requires
        0 <= p <= s.len(),
    ensures
        p <= plain_run_end(s, p) <= s.len(),
    decreases s.len() - p,
{
    if p < s.len() && is_plain_word_char(s[p]) {
        lemma_plain_run_end_bounds(s, p + 1);
    }
}

/// A word being continued stops at `p`: at the end of input, at a blank,
/// newline or one of `| & ; ( )`, or at a `<` or `>` that does not open a
/// process substitution.
pub open spec fn word_stops_at(s: Seq<char>, p: int) -> bool {
    ||| p >= s.len()
    ||| (0 <= p && (s[p] == ' ' || s[p] == '\t' || s[p] == '\n' || s[p] == '|' || s[p] == '&' || s[p] == ';'
        || s[p] == ')' || s[p] == '('))
    ||| (0 <= p && (s[p] == '<' || s[p] == '>') && !(p + 1 < s.len() && s[p + 1] == '('))
}

/// The end of the run of identifier characters starting at `i`.
pub open spec fn name_run_end(s: Seq<char>, i: int) -> int
    decreases s.len() - i,
{
    if 0 <= i < s.len() && is_name_char(s[i]) { name_run_end(s, i + 1) } else { i }
}

/// True for an ASCII letter or `_`.
pub fn name_start(c: char) -> (r: bool)
    ensures
        r == is_name_start(c),
{
    ('a' <= c && c <= 'z') || ('A' <= c && c <= 'Z') || c == '_'
}

/// True for an ASCII letter, digit or `_`.
pub fn name_char(c: char) -> (r: bool)
    ensures
        r == is_name_char(c),
{
    name_start(c) || ('0' <= c && c <= '9')
}

/// `s` is a non-empty bash identifier: `[A-Za-z_][A-Za-z0-9_]*`.
pub open spec fn spec_is_identifier(s: Seq<char>) -> bool {
    s.len() > 0 && is_name_start(s[0]) && forall|i: int| 1 <= i < s.len() ==> is_name_char(#[trigger] s[i])
}

/// Returns true if `value` is a non-empty plain bash identifier.
pub fn is_identifier_prefix(value: &[char]) -> (r: bool)
    ensures
        r == spec_is_identifier(value@),
{
    if value.len() == 0 {
        return false;
    }
    if !name_start(value[0]) {
        return false;
    }
    let mut i: usize = 1;
    while i < value.len()
        invariant
            1 <= i <= value@.len(),
            forall|j: int| 1 <= j < i ==> is_name_char(#[trigger] value@[j]),
        decreases value.len() - i,
    {
        if !name_char(value[i]) {
            return false;
        }
        i = i + 1;
    }
    true
}

/// Returns true if a word value matches `NAME=`, `NAME+=`, `NAME[...]=`
/// or `NAME[...]+=` at its start.
pub fn is_assignment_word(value: &[char]) -> (r: bool)
    ensures
        r ==> value@.len() > 0 && is_name_start(value@[0]),
        r ==> exists|i: int| 0 <= i < value@.len() && value@[i] == '=',
{
    if value.len() == 0 || !name_start(value[0]) {
        return false;
    }
    let mut i: usize = 1;
    while i < value.len()
        invariant
            1 <= i <= value@.len(),
            value@.len() > 0 && is_name_start(value@[0]),
        decreases value.len() - i,
    {
        let c = value[i];
        if name_char(c) {
            i = i + 1;
        } else if c == '[' {
            i = i + 1;
            let ghost i0 = i;
            let mut depth: usize = 1;
            while i < value.len() && depth > 0
                invariant
                    1 <= i <= value@.len(),
                    i0 <= i,
                    depth <= i,
                decreases value.len() - i,
            {
                let d = value[i];
                if d == '[' {
                    depth = depth + 1;
                } else if d == ']' {
                    depth = depth - 1;
                } else if d == ' ' || d == '\t' || d == '\n' {
                    return false;
                }
                i = i + 1;
            }
        } else if c == '+' && i + 1 < value.len() && value[i + 1] == '=' {
            assert(value@[i + 1] == '=');
            return true;
        } else if c == '=' {
            assert(value@[i as int] == '=');
            return true;
        } else {
            return false;
        }
    }
    false
}

impl Lexer {
    /// Reads a word token, handling quoting and expansions.
    pub fn read_word_token(&mut self, start: usize, line: usize) -> (r: Result<Token>)
        requires
            old(self).wf(),
        ensures
            same_source(*old(self), *final(self)),
            r is Ok ==> r->Ok_0.pos == start && r->Ok_0.line == line,
            r is Ok ==> r->Ok_0.value@.len() > 0,
            r is Ok ==> spans_within(r->Ok_0.spans@, r->Ok_0.value@.len()),
            plain_word_at(old(self).input@, old(self).pos as int)
                && old(self).fuel.budget >= plain_run_end(old(self).input@, old(self).pos as int) - old(self).pos + 2
                ==> (r matches Ok(t) && t.value@ == old(self).input@.subrange(old(self).pos as int, final(self).pos as int)
                    && t.kind == word_kind(old(self).ctx, t.value@) && t.spans@.len() == 0)
                    && final(self).pos == plain_run_end(old(self).input@, old(self).pos as int)
                    && final(self).peeked == old(self).peeked && final(self).pending_heredocs == old(self).pending_heredocs
                    && final(self).heredoc_contents == old(self).heredoc_contents
                    && final(self).fuel.budget + (final(self).pos - old(self).pos) + 2 >= old(self).fuel.budget,
        decreases old(self).fuel.budget,
    {
        proof {
            lemma_plain_run_end_bounds(old(self).input@, old(self).pos as int);
        }
        self.tick()?;
        let mut wb = WordBuilder::new();
        let ghost plain = plain_word_at(old(self).input@, old(self).pos as int)
            && old(self).fuel.budget >= plain_run_end(old(self).input@, old(self).pos as int) - old(self).pos + 2;
        let ghost e = plain_run_end(old(self).input@, old(self).pos as int);
        proof {
            lemma_plain_run_end_bounds(old(self).input@, old(self).pos as int);
        }
        assert(plain ==> wb.value@ =~= old(self).input@.subrange(old(self).pos as int, old(self).pos as int));
        loop
            invariant_except_break
                plain ==> self.fuel.budget + (self.pos - old(self).pos) + 1 == old(self).fuel.budget,
            invariant
                wb.wf(),
                same_source(*old(self), *self),
                self.fuel.budget < old(self).fuel.budget,
                e == plain_run_end(old(self).input@, old(self).pos as int),
                plain == (plain_word_at(old(self).input@, old(self).pos as int)
                    && old(self).fuel.budget >= plain_run_end(old(self).input@, old(self).pos as int) - old(self).pos + 2),
                plain ==> old(self).pos <= self.pos <= e && plain_run_end(self.input@, self.pos as int) == e
                    && wb.value@ == old(self).input@.subrange(old(self).pos as int, self.pos as int)
                    && self.ctx == old(self).ctx && self.peeked == old(self).peeked
                    && self.pending_heredocs == old(self).pending_heredocs && self.heredoc_contents == old(self).heredoc_contents
                    && wb.spans@.len() == 0,
            ensures
                wb.wf(),
                same_source(*old(self), *self),
                plain ==> self.pos == e && wb.value@ == old(self).input@.subrange(old(self).pos as int, self.pos as int)
                    && self.ctx == old(self).ctx && self.peeked == old(self).peeked
                    && self.pending_heredocs == old(self).pending_heredocs && self.heredoc_contents == old(self).heredoc_contents
                    && wb.spans@.len() == 0
                    && self.fuel.budget + (self.pos - old(self).pos) + 2 >= old(self).fuel.budget,
            decreases self.fuel.budget,
        {
            proof {
                if plain && self.pos < e {
                    lemma_plain_run(old(self).input@, old(self).pos as int, self.pos as int);
                    assert(is_plain_word_char(self.input@[self.pos as int]));
                }
            }
            self.tick()?;
            let c = match self.peek_char() {
                Some(c) => c,
                None => break,
            };
            if c == ' ' || c == '\t' || c == '\n' || c == '|' || c == '&' || c == ';' || c == ')' {
                break;
            } else if c == '`' && self.at_backtick_terminator() {
                break;
            } else if c == '<' || c == '>' {
                if self.read_angle_bracket_word(&mut wb)? {
                    break;
                }
            } else if c == '(' {
                if self.read_open_paren_word(&mut wb)? {
                    break;
                }
            } else if c == '\'' || c == '"' || c == '\\' || c == '$' || c == '`' {
                self.read_word_special(&mut wb, c)?;
            } else if self.is_extglob_trigger(c) {
                self.read_extglob(&mut wb, c)?;
            } else if c == '[' && self.word_enters_bracket_subscript(&wb) {
                self.read_bracket_subscript(&mut wb)?;
            } else {
                let ghost p0 = self.pos;
                self.advance_char();
                wb.push(c);
                proof {
                    if plain {
                        assert(old(self).input@.subrange(old(self).pos as int, p0 + 1)
                            =~= old(self).input@.subrange(old(self).pos as int, p0 as int).push(c));
                    }
                }
            }
        }
        let ghost wb0 = wb;
        super::brace_expansion::detect_brace_expansions(&mut wb);
        proof {
            if plain {
                assert forall|i: int| 0 <= i < wb0.value@.len() implies wb0.value@[i] != '{' by {
                    assert(wb0.value@[i] == old(self).input@[old(self).pos + i]);
                    lemma_plain_run(old(self).input@, old(self).pos as int, old(self).pos + i);
                }
                super::brace_expansion::lemma_no_brace_no_spans(wb0.value@, wb0.spans@, 0);
                assert forall|i: int| 0 <= i < wb.value@.len() implies wb.value@[i] != '=' by {
                    assert(wb.value@[i] == old(self).input@[old(self).pos + i]);
                    lemma_plain_run(old(self).input@, old(self).pos as int, old(self).pos + i);
                }
            }
        }
        if wb.is_empty() {
            return Err(RableError::parse("unexpected character", start, line));
        }
        let kind = self.classify_word(&wb);
        self.advance_word_context(kind);
        let value = string_from_chars(wb.value.as_slice());
        Ok(Token::with_spans(kind, value, start, line, wb.spans))
    }

    /// Handles `<` or `>` inside a word: a process substitution continues
    /// the word; otherwise the character ends it (returns true).
    pub fn read_angle_bracket_word(&mut self, wb: &mut WordBuilder) -> (r: Result<bool>)
        requires
            old(wb).wf(),
            old(self).wf(),
            old(self).char_at(old(self).pos as int) == Some('<') || old(self).char_at(old(self).pos as int) == Some('>'),
        ensures
            final(wb).wf(),
            crate::text::extends(old(wb).value@, final(wb).value@),
            same_source(*old(self), *final(self)),
            final(wb).context_stack@ == old(wb).context_stack@,
        decreases old(self).fuel.budget,
    {
        self.tick()?;
        if !wb.is_empty() && self.peek_at(1) == Some('(') {
            self.read_process_sub_into(wb)?;
            Ok(false)
        } else {
            Ok(true)
        }
    }

    /// Handles `(` inside a word: array assignment `arr=(…)`, an extglob
    /// pattern, or the end of the word (returns true).
    pub fn read_open_paren_word(&mut self, wb: &mut WordBuilder) -> (r: Result<bool>)
        requires
            old(wb).wf(),
            old(self).wf(),
        ensures
            final(wb).wf(),
            crate::text::extends(old(wb).value@, final(wb).value@),
            same_source(*old(self), *final(self)),
            final(wb).context_stack@ == old(wb).context_stack@,
        decreases old(self).fuel.budget,
    {
        self.tick()?;
        if wb.ends_with('=') {
            self.advance_char();
            wb.push('(');
            self.read_array_elements(wb)?;
            Ok(false)
        } else if wb.ends_with('@') || wb.ends_with('?') || wb.ends_with('+')
            || (wb.ends_with('!') && self.extglob) || (wb.ends_with('*') && self.extglob) {
            self.advance_char();
            wb.push('(');
            self.read_matched_parens(wb, 1)?;
            Ok(false)
        } else {
            Ok(true)
        }
    }

    /// True if `c` here opens an extglob pattern: a prefix character
    /// immediately followed by `(`.
    pub fn is_extglob_trigger(&self, c: char) -> (r: bool)
        requires
            self.wf(),
        ensures
            r == (self.char_at(self.pos + 1) == Some('(') && (c == '@' || c == '?' || c == '+'
                || ((c == '!' || c == '*') && self.extglob))),
    {
        if self.peek_at(1) != Some('(') {
            return false;
        }
        c == '@' || c == '?' || c == '+' || ((c == '!' || c == '*') && self.extglob)
    }

    /// True if `[` here opens a bracket subscript that absorbs its contents.
    pub fn word_enters_bracket_subscript(&self, wb: &WordBuilder) -> (r: bool)
        ensures
            r == ((self.ctx.command_start && spec_is_identifier(wb.value@)) || (self.ctx.cond_expr
                && wb.value@.len() > 0 && wb.value@.last() != '[')),
    {
        (self.ctx.command_start && is_identifier_prefix(wb.value.as_slice()))
            || (self.ctx.cond_expr && !wb.is_empty() && !wb.ends_with('['))
    }

    /// Classifies an assembled word value.
    pub fn classify_word(&self, wb: &WordBuilder) -> (r: TokenType)
        ensures
            r == TokenType::DoubleRightBracket ==> self.ctx.cond_expr,
            r == TokenType::Word || r == TokenType::AssignmentWord || (self.ctx.command_start
                && self.ctx.reserved_words_ok && crate::token::spec_reserved_word(wb.value@) == Some(r)),
            (forall|i: int| 0 <= i < wb.value@.len() ==> wb.value@[i] != '=') ==> r == word_kind(self.ctx, wb.value@),
    {
        let kind = if self.ctx.command_start && self.ctx.reserved_words_ok {
            match TokenType::reserved_word_chars(wb.value.as_slice()) {
                Some(k) => k,
                None => if is_assignment_word(wb.value.as_slice()) {
                    TokenType::AssignmentWord
                } else {
                    TokenType::Word
                },
            }
        } else if is_assignment_word(wb.value.as_slice()) {
            TokenType::AssignmentWord
        } else {
            TokenType::Word
        };
        if kind == TokenType::DoubleRightBracket && !self.ctx.cond_expr {
            TokenType::Word
        } else {
            kind
        }
    }

    /// Updates the command-start flags for the token after a word of `kind`.
    pub fn advance_word_context(&mut self, kind: TokenType)
        requires
            old(self).wf(),
        ensures
            same_source(*old(self), *final(self)),
            final(self).pos == old(self).pos,
            kind == TokenType::AssignmentWord ==> final(self).ctx.command_start
                && !final(self).ctx.reserved_words_ok,
            kind != TokenType::AssignmentWord ==> final(self).ctx.command_start == (
            spec_starts_command(kind) || kind == TokenType::Then || kind == TokenType::Else
                || kind == TokenType::Elif || kind == TokenType::Do || kind == TokenType::Semi),
            kind != TokenType::AssignmentWord ==> final(self).ctx.reserved_words_ok
                == final(self).ctx.command_start,
            *final(self) == (Lexer { ctx: final(self).ctx, ..*old(self) }),
    {
        if kind == TokenType::AssignmentWord {
            self.ctx.command_start = true;
            self.ctx.reserved_words_ok = false;
        } else {
            self.ctx.command_start = kind.starts_command() || kind == TokenType::Then
                || kind == TokenType::Else || kind == TokenType::Elif || kind == TokenType::Do
                || kind == TokenType::Semi;
            self.ctx.reserved_words_ok = self.ctx.command_start;
        }
    }

    /// Reads a quoted string, escape, dollar expansion, or backtick within a word.
    pub fn read_word_special(&mut self, wb: &mut WordBuilder, c: char) -> (r: Result<()>)
        requires
            old(wb).wf(),
            old(self).wf(),
        ensures
            final(wb).wf(),
            crate::text::extends(old(wb).value@, final(wb).value@),
            same_source(*old(self), *final(self)),
            final(wb).context_stack@ == old(wb).context_stack@,
            old(self).fuel.budget == 0 ==> r is Err,
            old(self).fuel.budget > 0 && c != '\'' && c != '"' && c != '\\' && c != '$' && c != '`'
                ==> r is Ok && final(wb).value@ == old(wb).value@ && final(self).pos == old(self).pos,
            old(self).fuel.budget > 0 && c == '\\' && old(self).pos + 1 < old(self).input@.len()
                && old(self).input@[old(self).pos as int] == '\\' ==> r is Ok && final(self).pos == old(self).pos + 2
                && (old(self).input@[old(self).pos + 1] == '\n' ==> final(wb).value@ == old(wb).value@)
                && (old(self).input@[old(self).pos + 1] != '\n' ==> final(wb).value@
                    == old(wb).value@ + old(self).input@.subrange(old(self).pos as int, old(self).pos + 2)),
            old(self).fuel.budget > 1 && c == '$' && old(self).pos < old(self).input@.len() && old(self).input@[old(self).pos as int] == '$'
                && !crate::lexer::expansions::opens_bracketed_dollar(old(self).input@, old(self).pos as int) ==> r is Ok
                && final(self).pos == crate::lexer::expansions::simple_dollar_end(old(self).input@, old(self).pos as int)
                && final(wb).value@ == old(wb).value@ + old(self).input@.subrange(old(self).pos as int, final(self).pos as int),
        decreases old(self).fuel.budget,
    {
        self.tick()?;
        if c == '\'' {
            let start = wb.span_start();
            self.advance_char();
            wb.push('\'');
            self.read_single_quoted(wb)?;
            wb.record(start, WordSpanKind::SingleQuoted);
        } else if c == '"' {
            let start = wb.span_start();
            self.advance_char();
            wb.push('"');
            self.read_double_quoted(wb)?;
            wb.record(start, WordSpanKind::DoubleQuoted);
        } else if c == '\\' {
            self.advance_char();
            if self.peek_char() == Some('\n') {
                self.advance_char();
            } else {
                let start = wb.span_start();
                wb.push('\\');
                match self.advance_char() {
                    Some(next) => wb.push(next),
                    None => wb.push('\\'),
                }
                proof {
                    let s0 = old(self).input@;
                    let p0 = old(self).pos as int;
                    if p0 + 1 < s0.len() && s0[p0] == '\\' {
                        assert(s0.subrange(p0, p0 + 2) =~= seq!['\\', s0[p0 + 1]]);
                    }
                }
                wb.record(start, WordSpanKind::Escape);
            }
        } else if c == '$' {
            self.read_dollar(wb)?;
        } else if c == '`' {
            let start = wb.span_start();
            self.advance_char();
            wb.push('`');
            self.read_backtick(wb)?;
            wb.record(start, WordSpanKind::Backtick);
        }
        Ok(())
    }

    /// Reads an extglob pattern `@(...)`, `?(...)`, etc.
    pub fn read_extglob(&mut self, wb: &mut WordBuilder, prefix: char) -> (r: Result<()>)
        requires
            old(wb).wf(),
            old(self).wf(),
        ensures
            final(wb).wf(),
            crate::text::extends(old(wb).value@, final(wb).value@),
            same_source(*old(self), *final(self)),
            final(wb).context_stack@ == old(wb).context_stack@,
            old(self).fuel.budget == 0 ==> r is Err,
            r is Ok ==> final(wb).value@.len() >= old(wb).value@.len() + 3
                && final(wb).value@[old(wb).value@.len() as int] == prefix
                && final(wb).value@[old(wb).value@.len() as int + 1] == '('
                && final(wb).value@.last() == ')',
            r is Ok ==> 0 < final(self).pos && final(self).input@[final(self).pos - 1] == ')',
        decreases old(self).fuel.budget,
    {
        self.tick()?;
        let start = wb.span_start();
        self.advance_char();
        wb.push(prefix);
        self.advance_char();
        wb.push('(');
        self.read_matched_parens(wb, 1)?;
        wb.record(start, WordSpanKind::Extglob(prefix));
        Ok(())
    }

    /// Reads a bracket subscript `[...]` inside a word, absorbing
    /// whitespace and metacharacters up to the matching `]`.
    pub fn read_bracket_subscript(&mut self, wb: &mut WordBuilder) -> (r: Result<()>)
        requires
            old(wb).wf(),
            old(self).wf(),
        ensures
            final(wb).wf(),
            crate::text::extends(old(wb).value@, final(wb).value@),
            same_source(*old(self), *final(self)),
            final(wb).context_stack@ == old(wb).context_stack@,
            old(self).fuel.budget == 0 ==> r is Err,
            r is Ok ==> final(wb).value@.len() > old(wb).value@.len() && final(wb).value@[old(wb).value@.len() as int] == '[',
            r is Ok ==> final(wb).value@.last() == ']' || final(self).pos == final(self).input@.len(),
        decreases old(self).fuel.budget,
    {
        self.tick()?;
        let start = wb.span_start();
        self.advance_char();
        wb.push('[');
        let mut depth: u64 = 1;
        loop
            invariant
            wb.wf(),
            crate::text::extends(old(wb).value@, wb.value@),
                start <= wb.value@.len(),
                start == old(wb).value@.len(),
                wb.value@.len() > start && wb.value@[start as int] == '[',
                same_source(*old(self), *self),
                self.fuel.budget < old(self).fuel.budget,
                wb.context_stack@ == old(wb).context_stack@,
            ensures
                wb.wf(),
                crate::text::extends(old(wb).value@, wb.value@),
                wb.value@.len() > start && wb.value@[start as int] == '[',
                same_source(*old(self), *self),
                wb.context_stack@ == old(wb).context_stack@,
                self.pos == self.input@.len(),
            decreases self.fuel.budget,
        {
            self.tick()?;
            let c = match self.peek_char() {
                Some(c) => c,
                None => break,
            };
            if c == '[' {
                depth = depth.saturating_add(1);
                self.advance_char();
                wb.push(c);
            } else if c == ']' {
                depth = if depth > 0 { depth - 1 } else { 0 };
                self.advance_char();
                wb.push(c);
                if depth == 0 {
                    wb.record(start, WordSpanKind::BracketSubscript);
                    return Ok(());
                }
            } else if c == '\'' {
                self.advance_char();
                wb.push('\'');
                self.read_single_quoted(wb)?;
            } else if c == '"' {
                self.advance_char();
                wb.push('"');
                self.read_double_quoted(wb)?;
            } else if c == '\\' {
                self.advance_char();
                wb.push('\\');
                match self.advance_char() {
                    Some(nc) => wb.push(nc),
                    None => {},
                }
            } else if c == '$' {
                self.read_dollar(wb)?;
            } else {
                self.advance_char();
                wb.push(c);
            }
        }
        Ok(())
    }

    /// Reads a process substitution into an existing word value.
    pub fn read_process_sub_into(&mut self, wb: &mut WordBuilder) -> (r: Result<()>)
        requires
            old(wb).wf(),
            old(self).wf(),
        ensures
            final(wb).wf(),
            crate::text::extends(old(wb).value@, final(wb).value@),
            same_source(*old(self), *final(self)),
            final(wb).context_stack@ == old(wb).context_stack@,
            old(self).fuel.budget == 0 ==> r is Err,
            r is Ok && old(self).pos + 2 <= final(self).pos && old(self).input@[old(self).pos + 1] == '('
                ==> final(wb).value@ == old(wb).value@ + old(self).input@.subrange(old(self).pos as int, final(self).pos as int),
        decreases old(self).fuel.budget,
    {
        self.tick()?;
        let start = wb.span_start();
        let dir = match self.advance_char() {
            Some(d) => d,
            None => '<',
        };
        wb.push(dir);
        self.advance_char();
        wb.push('(');
        let ghost mid = *wb;
        let ghost mid_pos = self.pos;
        self.read_paren_body_forked(wb)?;
        proof {
            let s0 = old(self).input@;
            let p0 = old(self).pos as int;
            if p0 + 2 <= self.pos && s0[p0 + 1] == '(' {
                assert(s0.subrange(p0, self.pos as int) =~= s0.subrange(p0, p0 + 2) + s0.subrange(p0 + 2, self.pos as int));
                assert(s0.subrange(p0, p0 + 2) =~= seq![dir, '(']);
                assert(wb.value@ =~= old(wb).value@ + s0.subrange(p0, self.pos as int));
            }
        }
        wb.record(start, WordSpanKind::ProcessSub(dir));
        Ok(())
    }

    /// Reads a process substitution `<(...)` or `>(...)` as a word token,
    /// continuing with any word characters after the closing `)`.
    pub fn read_process_sub_word(&mut self, start: usize, line: usize) -> (r: Result<Token>)
        requires
            old(self).wf(),
        ensures
            same_source(*old(self), *final(self)),
            r is Ok ==> r->Ok_0.pos == start && r->Ok_0.kind == TokenType::Word,
            r is Ok ==> spans_within(r->Ok_0.spans@, r->Ok_0.value@.len()),
        decreases old(self).fuel.budget,
    {
        self.tick()?;
        let mut wb = WordBuilder::new();
        let span_start = wb.span_start();
        let dir = match self.advance_char() {
            Some(d) => d,
            None => '<',
        };
        wb.push(dir);
        self.advance_char();
        wb.push('(');
        self.read_paren_body_forked(&mut wb)?;
        wb.record(span_start, WordSpanKind::ProcessSub(dir));
        self.continue_word(&mut wb)?;
        self.ctx.command_start = false;
        self.ctx.reserved_words_ok = false;
        let value = string_from_chars(wb.value.as_slice());
        Ok(Token::with_spans(TokenType::Word, value, start, line, wb.spans))
    }

    /// Continues reading word characters after a special construct.
    pub fn continue_word(&mut self, wb: &mut WordBuilder) -> (r: Result<()>)
        requires
            old(wb).wf(),
            old(self).wf(),
        ensures
            final(wb).wf(),
            crate::text::extends(old(wb).value@, final(wb).value@),
            same_source(*old(self), *final(self)),
            final(wb).context_stack@ == old(wb).context_stack@,
            old(self).fuel.budget == 0 ==> r is Err,
            r is Ok ==> word_stops_at(final(self).input@, final(self).pos as int),
            old(self).fuel.budget >= 2 && word_stops_at(old(self).input@, old(self).pos as int) ==> r is Ok
                && final(wb).value@ == old(wb).value@ && final(self).pos == old(self).pos,
        decreases old(self).fuel.budget,
    {
        self.tick()?;
        loop
            invariant_except_break
                old(self).fuel.budget >= 2 && word_stops_at(old(self).input@, old(self).pos as int) ==> self.pos == old(self).pos
                    && wb.value@ == old(wb).value@ && self.fuel.budget + 1 == old(self).fuel.budget,
            invariant
            wb.wf(),
            crate::text::extends(old(wb).value@, wb.value@),
                same_source(*old(self), *self),
                self.fuel.budget < old(self).fuel.budget,
                wb.context_stack@ == old(wb).context_stack@,
            ensures
                wb.wf(),
                crate::text::extends(old(wb).value@, wb.value@),
                same_source(*old(self), *self),
                wb.context_stack@ == old(wb).context_stack@,
                word_stops_at(self.input@, self.pos as int),
                old(self).fuel.budget >= 2 && word_stops_at(old(self).input@, old(self).pos as int) ==> self.pos == old(self).pos
                    && wb.value@ == old(wb).value@,
            decreases self.fuel.budget,
        {
            self.tick()?;
            let c = match self.peek_char() {
                Some(c) => c,
                None => break,
            };
            if c == ' ' || c == '\t' || c == '\n' || c == '|' || c == '&' || c == ';' || c == ')' || c == '(' {
                break;
            } else if c == '<' || c == '>' {
                if self.peek_at(1) == Some('(') {
                    self.read_process_sub_into(wb)?;
                } else {
                    break;
                }
            } else if c == '\'' || c == '"' || c == '\\' || c == '$' || c == '`' {
                self.read_word_special(wb, c)?;
            } else {
                self.advance_char();
                wb.push(c);
            }
        }
        Ok(())
    }

    /// Reads array elements from `(...)` with comments stripped and
    /// elements joined by single spaces. The `(` is already consumed.
    pub fn read_array_elements(&mut self, wb: &mut WordBuilder) -> (r: Result<()>)
        requires
            old(wb).wf(),
            old(self).wf(),
        ensures
            final(wb).wf(),
            crate::text::extends(old(wb).value@, final(wb).value@),
            same_source(*old(self), *final(self)),
            final(wb).context_stack@ == old(wb).context_stack@,
            r is Ok ==> final(wb).value@.len() > old(wb).value@.len() && final(wb).value@.last() == ')',
            r is Ok ==> 0 < final(self).pos <= final(self).input@.len() && final(self).input@[final(self).pos - 1] == ')',
        decreases old(self).fuel.budget,
    {
        self.tick()?;
        let mut need_space = false;
        loop
            invariant
            wb.wf(),
            crate::text::extends(old(wb).value@, wb.value@),
                same_source(*old(self), *self),
                self.fuel.budget < old(self).fuel.budget,
                wb.context_stack@ == old(wb).context_stack@,
            decreases self.fuel.budget,
        {
            self.tick()?;
            let ghost b = self.fuel.budget;
            loop
                invariant
                wb.wf(),
                crate::text::extends(old(wb).value@, wb.value@),
                    same_source(*old(self), *self),
                    self.fuel.budget < old(self).fuel.budget,
                    self.fuel.budget == b,
                decreases self.input@.len() - self.pos,
            {
                match self.peek_char() {
                    Some(' ') | Some('\t') | Some('\n') | Some('\r') => {
                        self.advance_char();
                    }
                    _ => break,
                }
            }
            match self.peek_char() {
                Some(')') => {
                    self.advance_char();
                    wb.push(')');
                    return Ok(());
                }
                Some('#') => {
                    self.skip_comment();
                }
                Some(_) => {
                    if need_space {
                        wb.push(' ');
                    }
                    self.read_array_element(wb)?;
                    need_space = true;
                }
                None => {
                    return Err(RableError::matched_pair("unterminated array", self.pos, self.line));
                }
            }
        }
    }

    /// Reads a single array element; `)` and whitespace end it.
    pub fn read_array_element(&mut self, wb: &mut WordBuilder) -> (r: Result<()>)
        requires
            old(wb).wf(),
            old(self).wf(),
        ensures
            final(wb).wf(),
            crate::text::extends(old(wb).value@, final(wb).value@),
            same_source(*old(self), *final(self)),
            final(wb).context_stack@ == old(wb).context_stack@,
        decreases old(self).fuel.budget,
    {
        self.tick()?;
        loop
            invariant
            wb.wf(),
            crate::text::extends(old(wb).value@, wb.value@),
                same_source(*old(self), *self),
                self.fuel.budget < old(self).fuel.budget,
                wb.context_stack@ == old(wb).context_stack@,
            decreases self.fuel.budget,
        {
            self.tick()?;
            let c = match self.peek_char() {
                Some(c) => c,
                None => break,
            };
            if c == ' ' || c == '\t' || c == '\n' || c == '\r' || c == ')' {
                break;
            } else if c == '<' || c == '>' {
                if self.peek_at(1) == Some('(') {
                    self.read_process_sub_into(wb)?;
                } else {
                    self.advance_char();
                    wb.push(c);
                }
            } else if c == '\'' || c == '"' || c == '\\' || c == '$' || c == '`' {
                self.read_word_special(wb, c)?;
            } else {
                self.advance_char();
                wb.push(c);
            }
        }
        Ok(())
    }
}

} // verus!
