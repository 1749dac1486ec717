//! Dollar expansions, matched parentheses, parameter expansions and
//! backtick substitutions inside words.
use vstd::prelude::*;
use crate::context::CaseTracker;
use crate::error::{RableError, Result};
use super::word_builder::{QuotingContext, WordBuilder, WordSpanKind};
use super::words::name_char;
use super::{same_source, Lexer};

verus! {

/// Per-loop state while reading up to a matching close parenthesis.
pub struct ParenLoopState {
    /// Parentheses still open.
    pub depth: usize,
    /// Tracks `case ... in pat)` so pattern `)` do not close.
    pub case: CaseTracker,
    /// The word being read, for the case tracker.
    pub word_buf: Vec<char>,
}

impl ParenLoopState {
    /// State for reading until `close_count` parentheses are closed.
    pub fn new(close_count: usize) -> (r: Self)
        ensures
            r.depth == close_count,
            r.word_buf@.len() == 0,
    {
        ParenLoopState { depth: close_count, case: CaseTracker::new(), word_buf: Vec::new() }
    }

    /// Ends the current word: the case tracker sees it, then it is cleared.
    pub fn end_word(&mut self)
        ensures
            final(self).depth == old(self).depth,
            final(self).word_buf@.len() == 0,
    {
        self.case.check_word(self.word_buf.as_slice());
        self.word_buf = Vec::new();
    }
}

/// The offset just after the first `q` at or after `p` that no backslash
/// escapes.
pub open spec fn escaped_close(s: Seq<char>, p: int, q: char) -> Option<int>
    decreases s.len() - p,
{
    if p < 0 || p >= s.len() {
        None
    } else if s[p] == '\\' {
        if p + 1 < s.len() { escaped_close(s, p + 2, q) } else { None }
    } else if s[p] == q {
        Some(p + 1)
    } else {
        escaped_close(s, p + 1, q)
    }
}

/// The offset just after the first backtick at or after `p` that no
/// backslash escapes.
pub open spec fn backtick_close(s: Seq<char>, p: int) -> Option<int> {
    escaped_close(s, p, '`')
}

/// A character that can follow `$` to start a simple variable expansion.
pub open spec fn spec_is_dollar_start(c: char) -> bool {
    ('a' <= c && c <= 'z') || ('A' <= c && c <= 'Z') || ('0' <= c && c <= '9') || c == '_' || c
        == '@' || c == '*' || c == '#' || c == '?' || c == '-' || c == '$' || c == '!'
}

/// Returns true if the character can follow `$` to start a variable expansion.
pub fn is_dollar_start(c: char) -> (r: bool)
    ensures
        r == spec_is_dollar_start(c),
{
    ('a' <= c && c <= 'z') || ('A' <= c && c <= 'Z') || ('0' <= c && c <= '9') || c == '_' || c
        == '@' || c == '*' || c == '#' || c == '?' || c == '-' || c == '$' || c == '!'
}

/// After a `$` at `p` that opens none of `$(`, `${`, `$'`, `$"` or `$[`:
/// the `$` starts the expansion of the character after it.
pub open spec fn opens_bracketed_dollar(s: Seq<char>, p: int) -> bool {
    p + 1 < s.len() && (s[p + 1] == '(' || s[p + 1] == '{' || s[p + 1] == '\'' || s[p + 1] == '"' || s[p + 1] == '[')
}

/// Where a `$` at `p` that opens no bracketed form ends: after the name
/// that follows it, after the one special character or digit that follows
/// it, or right after the `$`.
pub open spec fn simple_dollar_end(s: Seq<char>, p: int) -> int {
    if p + 1 < s.len() && crate::lexer::words::is_name_start(s[p + 1]) {
        crate::lexer::words::name_run_end(s, p + 1)
    } else if p + 1 < s.len() && spec_is_dollar_start(s[p + 1]) {
        p + 2
    } else {
        p + 1
    }
}

impl Lexer {
    /// Reads a dollar expansion (the `$` is at the current position).
    pub fn read_dollar(&mut self, wb: &mut WordBuilder) -> (r: Result<()>)
        requires
            old(wb).wf(),
            old(self).wf(),
        ensures
            final(wb).wf(),
            crate::text::extends(old(wb).value@, final(wb).value@),
            same_source(*old(self), *final(self)),
            final(wb).context_stack@ == old(wb).context_stack@,
            old(self).fuel.budget == 0 ==> r is Err,
            r is Ok ==> final(wb).value@.len() > old(wb).value@.len() && final(wb).value@[old(wb).value@.len() as int] == '$',
            old(self).fuel.budget > 0 && old(self).pos < old(self).input@.len() && old(self).input@[old(self).pos as int] == '$'
                && !opens_bracketed_dollar(old(self).input@, old(self).pos as int) ==> r is Ok
                && final(self).pos == simple_dollar_end(old(self).input@, old(self).pos as int)
                && final(wb).value@ == old(wb).value@ + old(self).input@.subrange(old(self).pos as int, final(self).pos as int),
        decreases old(self).fuel.budget,
    {
        self.tick()?;
        let span_start = wb.span_start();
        self.advance_char();
        wb.push('$');
        match self.peek_char() {
            Some('(') => {
                self.advance_char();
                wb.push('(');
                if self.peek_char() == Some('(') {
                    self.advance_char();
                    wb.push('(');
                    self.read_matched_parens(wb, 2)?;
                    wb.record(span_start, WordSpanKind::ArithmeticSub);
                } else {
                    self.read_paren_body_forked(wb)?;
                    wb.record(span_start, WordSpanKind::CommandSub);
                }
            }
            Some('{') => {
                self.advance_char();
                wb.push('{');
                self.read_param_expansion_braces(wb)?;
                wb.record(span_start, WordSpanKind::ParamExpansion);
            }
            Some('\'') => {
                self.advance_char();
                wb.push('\'');
                self.read_ansi_c_quoted(wb)?;
                wb.record(span_start, WordSpanKind::AnsiCQuote);
            }
            Some('"') => {
                self.advance_char();
                wb.push('"');
                self.read_double_quoted(wb)?;
                wb.record(span_start, WordSpanKind::LocaleString);
            }
            Some('[') => {
                self.advance_char();
                wb.push('[');
                self.read_deprecated_arith(wb)?;
                wb.record(span_start, WordSpanKind::DeprecatedArith);
            }
            Some(c) => {
                if is_dollar_start(c) {
                    self.read_variable_name(wb, c);
                    wb.record(span_start, WordSpanKind::SimpleVar);
                    proof {
                        let s0 = old(self).input@;
                        let p0 = old(self).pos as int;
                        if p0 < s0.len() && s0[p0] == '$' {
                            assert(s0.subrange(p0, self.pos as int) =~= seq!['$'] + s0.subrange(p0 + 1, self.pos as int));
                        }
                    }
                }
            }
            None => {},
        }
        proof {
            let s0 = old(self).input@;
            let p0 = old(self).pos as int;
            if p0 < s0.len() && s0[p0] == '$' && self.pos == p0 + 1 {
                assert(s0.subrange(p0, p0 + 1) =~= seq!['$']);
            }
        }
        Ok(())
    }

    /// Reads a parenthesized command list (`$(...)`, `<(...)`, `>(...)`)
    /// by running the real grammar on a fork of this lexer, then copies
    /// the consumed source, including the closing `)`, into `wb`.
    pub fn read_paren_body_forked(&mut self, wb: &mut WordBuilder) -> (r: Result<()>)
        requires
            old(wb).wf(),
            old(self).wf(),
        ensures
            final(wb).wf(),
            crate::text::extends(old(wb).value@, final(wb).value@),
            same_source(*old(self), *final(self)),
            final(wb).context_stack@ == old(wb).context_stack@,
            r is Ok && final(self).pos >= old(self).pos ==> final(wb).value@ == old(wb).value@ + old(self).input@.subrange(old(self).pos as int, final(self).pos as int),
            r is Ok && final(self).pos < old(self).pos ==> final(wb).value@ == old(wb).value@,
        decreases old(self).fuel.budget,
    {
        self.tick()?;
        let body_start = self.pos;
        let (end_pos, end_line) = crate::parser::parse_cmdsub_body(self)?;
        let mut i = body_start;
        while i < end_pos
            invariant
            wb.wf(),
            crate::text::extends(old(wb).value@, wb.value@),
                end_pos <= self.input@.len(),
                wb.context_stack@ == old(wb).context_stack@,
                body_start <= i,
                i <= end_pos ==> wb.value@ == old(wb).value@ + self.input@.subrange(body_start as int, i as int),
                i > end_pos ==> i == body_start && wb.value@ == old(wb).value@,
                self.input@ == old(self).input@,
                body_start == old(self).pos,
            decreases end_pos - i,
        {
            proof {
                assert(self.input@.subrange(body_start as int, i + 1) =~= self.input@.subrange(body_start as int, i as int).push(self.input@[i as int]));
            }
            wb.push(self.input[i]);
            i = i + 1;
        }
        self.pos = end_pos;
        self.line = end_line;
        Ok(())
    }

    /// Reads a variable name after `$` for simple expansions.
    pub fn read_variable_name(&mut self, wb: &mut WordBuilder, first: char)
        requires
            old(wb).wf(),
            old(self).wf(),
        ensures
            final(wb).wf(),
            crate::text::extends(old(wb).value@, final(wb).value@),
            same_source(*old(self), *final(self)),
            final(self).fuel == old(self).fuel,
            final(wb).context_stack@ == old(wb).context_stack@,
            final(wb).spans@ == old(wb).spans@,
            old(self).pos <= final(self).pos,
            crate::lexer::words::is_name_start(first) ==> final(self).pos == crate::lexer::words::name_run_end(old(self).input@, old(self).pos as int)
                && final(wb).value@ == old(wb).value@ + old(self).input@.subrange(old(self).pos as int, final(self).pos as int),
            !crate::lexer::words::is_name_start(first) ==> final(wb).value@ == old(wb).value@.push(first)
                && final(self).pos == (if old(self).pos < old(self).input@.len() { old(self).pos + 1 } else { old(self).pos as int }),
    {
        if ('a' <= first && first <= 'z') || ('A' <= first && first <= 'Z') || first == '_' {
            loop
                invariant
                wb.wf(),
                crate::text::extends(old(wb).value@, wb.value@),
                    same_source(*old(self), *self),
                    self.fuel == old(self).fuel,
                    wb.context_stack@ == old(wb).context_stack@,
                    wb.spans@ == old(wb).spans@,
                    old(self).pos <= self.pos,
                    crate::lexer::words::name_run_end(self.input@, self.pos as int) == crate::lexer::words::name_run_end(old(self).input@, old(self).pos as int),
                    wb.value@ == old(wb).value@ + old(self).input@.subrange(old(self).pos as int, self.pos as int),
                ensures
                    wb.wf(),
                    crate::text::extends(old(wb).value@, wb.value@),
                    same_source(*old(self), *self),
                    self.fuel == old(self).fuel,
                    wb.context_stack@ == old(wb).context_stack@,
                    wb.spans@ == old(wb).spans@,
                    self.pos == crate::lexer::words::name_run_end(old(self).input@, old(self).pos as int),
                    wb.value@ == old(wb).value@ + old(self).input@.subrange(old(self).pos as int, self.pos as int),
                decreases self.input@.len() - self.pos,
            {
                match self.peek_char() {
                    Some(nc) => {
                        if name_char(nc) {
                            proof {
                                assert(old(self).input@.subrange(old(self).pos as int, self.pos + 1)
                                    =~= old(self).input@.subrange(old(self).pos as int, self.pos as int).push(nc));
                            }
                            self.advance_char();
                            wb.push(nc);
                        } else {
                            break;
                        }
                    }
                    None => break,
                }
            }
        } else {
            self.advance_char();
            wb.push(first);
        }
    }

    /// Reads until `close_count` parentheses are closed.
    pub fn read_matched_parens(&mut self, wb: &mut WordBuilder, close_count: usize) -> (r: Result<()>)
        requires
            old(wb).wf(),
            old(self).wf(),
        ensures
            final(wb).wf(),
            crate::text::extends(old(wb).value@, final(wb).value@),
            same_source(*old(self), *final(self)),
            final(wb).context_stack@ == old(wb).context_stack@,
            r is Ok ==> final(wb).value@.len() > old(wb).value@.len() && final(wb).value@.last() == ')',
            r is Ok ==> 0 < final(self).pos <= final(self).input@.len() && final(self).input@[final(self).pos - 1] == ')',
        decreases old(self).fuel.budget,
    {
        self.tick()?;
        wb.enter_context(QuotingContext::CommandSub);
        let result = self.read_matched_parens_inner(wb, close_count);
        wb.leave_context();
        assert(wb.context_stack@ =~= old(wb).context_stack@);
        result
    }

    fn read_matched_parens_inner(&mut self, wb: &mut WordBuilder, close_count: usize) -> (r: Result<()>)
        requires
            old(wb).wf(),
            old(self).wf(),
        ensures
            final(wb).wf(),
            crate::text::extends(old(wb).value@, final(wb).value@),
            same_source(*old(self), *final(self)),
            final(wb).context_stack@ == old(wb).context_stack@,
            r is Ok ==> final(wb).value@.len() > old(wb).value@.len() && final(wb).value@.last() == ')',
            r is Ok ==> 0 < final(self).pos <= final(self).input@.len() && final(self).input@[final(self).pos - 1] == ')',
        decreases old(self).fuel.budget,
    {
        let mut state = ParenLoopState::new(close_count);
        loop
            invariant
            wb.wf(),
            crate::text::extends(old(wb).value@, wb.value@),
                same_source(*old(self), *self),
                wb.context_stack@ == old(wb).context_stack@,
            decreases self.fuel.budget,
        {
            self.tick()?;
            match self.peek_char() {
                Some(')') => {
                    state.end_word();
                    self.advance_char();
                    wb.push(')');
                    if state.case.is_pattern_close() {
                        state.case.close_pattern();
                    } else {
                        state.depth = if state.depth > 0 { state.depth - 1 } else { 0 };
                        if state.depth == 0 {
                            return Ok(());
                        }
                    }
                }
                Some('(') => {
                    state.end_word();
                    self.advance_char();
                    wb.push('(');
                    if !state.case.is_pattern_open() {
                        state.depth = state.depth.saturating_add(1);
                    }
                }
                Some('\'') => {
                    state.end_word();
                    self.advance_char();
                    wb.push('\'');
                    self.read_single_quoted(wb)?;
                }
                Some('"') => {
                    state.end_word();
                    self.advance_char();
                    wb.push('"');
                    self.read_double_quoted(wb)?;
                }
                Some('\\') => {
                    state.word_buf = Vec::new();
                    self.advance_char();
                    if self.peek_char() == Some('\n') {
                        self.advance_char();
                    } else {
                        wb.push('\\');
                        match self.advance_char() {
                            Some(c) => wb.push(c),
                            None => wb.push('\\'),
                        }
                    }
                }
                Some('$') => {
                    state.word_buf = Vec::new();
                    self.read_dollar(wb)?;
                }
                Some('`') => {
                    state.word_buf = Vec::new();
                    self.advance_char();
                    wb.push('`');
                    self.read_backtick(wb)?;
                }
                Some('#') => {
                    state.end_word();
                    let n = wb.value.len();
                    let prev = if n > 0 { wb.value[n - 1] } else { '\n' };
                    if prev == '\n' || prev == ' ' || prev == '\t' {
                        self.skip_comment();
                    } else {
                        self.advance_char();
                        wb.push('#');
                    }
                }
                Some(';') => {
                    state.end_word();
                    self.advance_char();
                    wb.push(';');
                    if self.peek_char() == Some(';') {
                        self.advance_char();
                        wb.push(';');
                        if self.peek_char() == Some('&') {
                            self.advance_char();
                            wb.push('&');
                        }
                        state.case.resume_pattern();
                    } else if self.peek_char() == Some('&') {
                        self.advance_char();
                        wb.push('&');
                        state.case.resume_pattern();
                    }
                }
                Some(' ') | Some('\t') | Some('\n') | Some('|') => {
                    let c = self.input[self.pos];
                    state.end_word();
                    self.advance_char();
                    wb.push(c);
                }
                Some(c) => {
                    state.word_buf.push(c);
                    self.advance_char();
                    wb.push(c);
                }
                None => {
                    return Err(RableError::matched_pair("unterminated parenthesis", self.pos, self.line));
                }
            }
        }
    }

    /// Reads a parameter expansion `${...}` (after the `{`).
    pub fn read_param_expansion_braces(&mut self, wb: &mut WordBuilder) -> (r: Result<()>)
        requires
            old(wb).wf(),
            old(self).wf(),
        ensures
            final(wb).wf(),
            crate::text::extends(old(wb).value@, final(wb).value@),
            same_source(*old(self), *final(self)),
            final(wb).context_stack@ == old(wb).context_stack@,
            r is Ok ==> final(wb).value@.len() > old(wb).value@.len() && final(wb).value@.last() == '}',
            r is Ok ==> 0 < final(self).pos <= final(self).input@.len() && final(self).input@[final(self).pos - 1] == '}',
        decreases old(self).fuel.budget,
    {
        self.tick()?;
        wb.enter_context(QuotingContext::ParamExpansion);
        let result = self.read_param_expansion_inner(wb);
        wb.leave_context();
        assert(wb.context_stack@ =~= old(wb).context_stack@);
        result
    }

    fn read_param_expansion_inner(&mut self, wb: &mut WordBuilder) -> (r: Result<()>)
        requires
            old(wb).wf(),
            old(self).wf(),
        ensures
            final(wb).wf(),
            crate::text::extends(old(wb).value@, final(wb).value@),
            same_source(*old(self), *final(self)),
            final(wb).context_stack@ == old(wb).context_stack@,
            r is Ok ==> final(wb).value@.len() > old(wb).value@.len() && final(wb).value@.last() == '}',
            r is Ok ==> 0 < final(self).pos <= final(self).input@.len() && final(self).input@[final(self).pos - 1] == '}',
        decreases old(self).fuel.budget,
    {
        loop
            invariant
            wb.wf(),
            crate::text::extends(old(wb).value@, wb.value@),
                same_source(*old(self), *self),
                wb.context_stack@ == old(wb).context_stack@,
            decreases self.fuel.budget,
        {
            self.tick()?;
            match self.peek_char() {
                Some('}') => {
                    self.advance_char();
                    wb.push('}');
                    return Ok(());
                }
                Some('\'') => {
                    self.advance_char();
                    wb.push('\'');
                    self.read_single_quoted(wb)?;
                }
                Some('"') => {
                    self.advance_char();
                    wb.push('"');
                    self.read_double_quoted(wb)?;
                }
                Some('\\') => {
                    self.advance_char();
                    if self.peek_char() == Some('\n') {
                        self.advance_char();
                    } else {
                        wb.push('\\');
                        match self.advance_char() {
                            Some(c) => wb.push(c),
                            None => wb.push('\\'),
                        }
                    }
                }
                Some('$') => {
                    self.read_dollar(wb)?;
                }
                Some('`') => {
                    self.advance_char();
                    wb.push('`');
                    self.read_backtick(wb)?;
                }
                Some(c) => {
                    self.advance_char();
                    wb.push(c);
                }
                None => {
                    return Err(RableError::matched_pair("unterminated parameter expansion", self.pos, self.line));
                }
            }
        }
    }

    /// Reads a backtick command substitution (after the opening backtick).
    pub fn read_backtick(&mut self, wb: &mut WordBuilder) -> (r: Result<()>)
        requires
            old(wb).wf(),
            old(self).wf(),
        ensures
            final(wb).wf(),
            crate::text::extends(old(wb).value@, final(wb).value@),
            same_source(*old(self), *final(self)),
            final(wb).context_stack@ == old(wb).context_stack@,
            r is Ok && final(self).pos >= old(self).pos ==> final(wb).value@ == old(wb).value@ + old(self).input@.subrange(old(self).pos as int, final(self).pos as int),
            r is Ok && final(self).pos < old(self).pos ==> final(wb).value@ == old(wb).value@,
        decreases old(self).fuel.budget,
    {
        self.tick()?;
        wb.enter_context(QuotingContext::Backtick);
        let result = self.read_backtick_inner(wb);
        wb.leave_context();
        assert(wb.context_stack@ =~= old(wb).context_stack@);
        result
    }

    fn read_backtick_inner(&mut self, wb: &mut WordBuilder) -> (r: Result<()>)
        requires
            old(wb).wf(),
            old(self).wf(),
        ensures
            final(wb).wf(),
            crate::text::extends(old(wb).value@, final(wb).value@),
            same_source(*old(self), *final(self)),
            final(wb).context_stack@ == old(wb).context_stack@,
            r is Ok && final(self).pos >= old(self).pos ==> final(wb).value@ == old(wb).value@ + old(self).input@.subrange(old(self).pos as int, final(self).pos as int),
            r is Ok && final(self).pos < old(self).pos ==> final(wb).value@ == old(wb).value@,
        decreases old(self).fuel.budget,
    {
        self.tick()?;
        let body_start = self.pos;
        let (end_pos, end_line) = match crate::parser::parse_backtick_body(self) {
            Ok(r) => r,
            Err(_) => self.scan_backtick_opaque(body_start)?,
        };
        let mut i = body_start;
        while i < end_pos
            invariant
            wb.wf(),
            crate::text::extends(old(wb).value@, wb.value@),
                end_pos <= self.input@.len(),
                wb.context_stack@ == old(wb).context_stack@,
                body_start <= i,
                i <= end_pos ==> wb.value@ == old(wb).value@ + self.input@.subrange(body_start as int, i as int),
                i > end_pos ==> i == body_start && wb.value@ == old(wb).value@,
                self.input@ == old(self).input@,
                body_start == old(self).pos,
            decreases end_pos - i,
        {
            proof {
                assert(self.input@.subrange(body_start as int, i + 1) =~= self.input@.subrange(body_start as int, i as int).push(self.input@[i as int]));
            }
            wb.push(self.input[i]);
            i = i + 1;
        }
        self.pos = end_pos;
        self.line = end_line;
        Ok(())
    }

    /// Raw scan for the closing backtick, used when the body does not parse:
    /// only `\x` escapes are recognised. Returns the position just past the
    /// closing backtick and the line there.
    pub fn scan_backtick_opaque(&self, body_start: usize) -> (r: Result<(usize, usize)>)
        requires
            self.wf(),
            body_start <= self.input@.len(),
        ensures
            r is Ok ==> body_start < r->Ok_0.0 <= self.input@.len(),
            r is Ok ==> self.input@[r->Ok_0.0 - 1] == '`',
            r is Ok <==> backtick_close(self.input@, body_start as int) is Some,
            r is Ok ==> r->Ok_0.0 == backtick_close(self.input@, body_start as int)->0,
    {
        let mut pos = body_start;
        let mut line = self.line;
        while pos < self.input.len()
            invariant
                body_start <= pos <= self.input@.len(),
                backtick_close(self.input@, pos as int) == backtick_close(self.input@, body_start as int),
            decreases self.input@.len() - pos,
        {
            let c = self.input[pos];
            if c == '\\' {
                pos = pos + 1;
                if pos < self.input.len() {
                    if self.input[pos] == '\n' {
                        line = line.saturating_add(1);
                    }
                    pos = pos + 1;
                }
            } else if c == '`' {
                return Ok((pos + 1, line));
            } else if c == '\n' {
                line = line.saturating_add(1);
                pos = pos + 1;
            } else {
                pos = pos + 1;
            }
        }
        Err(RableError::matched_pair("unterminated backtick", pos, line))
    }

    /// Reads deprecated `$[...]` arithmetic with bracket depth tracking.
    pub fn read_deprecated_arith(&mut self, wb: &mut WordBuilder) -> (r: Result<()>)
        requires
            old(wb).wf(),
            old(self).wf(),
        ensures
            final(wb).wf(),
            crate::text::extends(old(wb).value@, final(wb).value@),
            same_source(*old(self), *final(self)),
            final(self).fuel == old(self).fuel,
            final(wb).context_stack@ == old(wb).context_stack@,
            final(wb).spans@ == old(wb).spans@,
            r is Ok ==> final(wb).value@.len() > old(wb).value@.len() && final(wb).value@.last() == ']',
            r is Ok ==> 0 < final(self).pos <= final(self).input@.len() && final(self).input@[final(self).pos - 1] == ']',
    {
        let mut depth: usize = 1;
        loop
            invariant
            wb.wf(),
            crate::text::extends(old(wb).value@, wb.value@),
                same_source(*old(self), *self),
                self.fuel == old(self).fuel,
                wb.context_stack@ == old(wb).context_stack@,
                wb.spans@ == old(wb).spans@,
                1 <= depth,
            decreases self.input@.len() - self.pos,
        {
            match self.advance_char() {
                Some('[') => {
                    depth = depth.saturating_add(1);
                    wb.push('[');
                }
                Some(']') => {
                    depth = depth - 1;
                    wb.push(']');
                    if depth == 0 {
                        return Ok(());
                    }
                }
                Some(c) => wb.push(c),
                None => {
                    return Err(RableError::matched_pair("unterminated '$['", self.pos, self.line));
                }
            }
        }
    }
}

} // verus!
