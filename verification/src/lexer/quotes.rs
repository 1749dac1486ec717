//! Quoted strings inside words.
use vstd::prelude::*;
use crate::error::{RableError, Result};
use super::word_builder::{QuotingContext, WordBuilder};
use super::expansions::escaped_close;
use super::{same_source, Lexer};

verus! {

impl Lexer {
    /// Reads the rest of a single-quoted string (after the opening quote),
    /// pushing every character up to and including the closing quote.
    pub fn read_single_quoted(&mut self, wb: &mut WordBuilder) -> (r: Result<()>)
        requires
            old(wb).wf(),
            old(self).wf(),
        ensures
            final(wb).wf(),
            crate::text::extends(old(wb).value@, final(wb).value@),
            same_source(*old(self), *final(self)),
            final(self).fuel == old(self).fuel,
            r is Ok ==> final(self).pos > old(self).pos,
            r is Ok ==> final(wb).value@ == old(wb).value@ + old(self).input@.subrange(
                old(self).pos as int,
                final(self).pos as int,
            ),
            r is Ok ==> old(self).input@[final(self).pos - 1] == '\'',
            r is Ok ==> forall|i: int|
                old(self).pos <= i < final(self).pos - 1 ==> old(self).input@[i] != '\'',
            r is Err <==> forall|i: int|
                old(self).pos <= i < old(self).input@.len() ==> old(self).input@[i] != '\'',
            final(wb).spans@ == old(wb).spans@,
            final(wb).context_stack@ == old(wb).context_stack@,
    {
        loop
            invariant
            wb.wf(),
            crate::text::extends(old(wb).value@, wb.value@),
                same_source(*old(self), *self),
                self.fuel == old(self).fuel,
                self.pos >= old(self).pos,
                wb.value@ == old(wb).value@ + old(self).input@.subrange(old(self).pos as int, self.pos as int),
                forall|i: int| old(self).pos <= i < self.pos ==> old(self).input@[i] != '\'',
                wb.spans@ == old(wb).spans@,
                wb.context_stack@ == old(wb).context_stack@,
            decreases self.input@.len() - self.pos,
        {
            let ghost p = self.pos;
            match self.advance_char() {
                Some(c) => {
                    wb.push(c);
                    assert(old(self).input@.subrange(old(self).pos as int, self.pos as int)
                        =~= old(self).input@.subrange(old(self).pos as int, p as int).push(c));
                    if c == '\'' {
                        return Ok(());
                    }
                }
                None => {
                    return Err(RableError::matched_pair("unterminated single quote", self.pos, self.line));
                }
            }
        }
    }

    /// Reads the rest of an ANSI-C quoted string `$'...'` (after the opening
    /// quote); a backslash escapes the next character.
    pub fn read_ansi_c_quoted(&mut self, wb: &mut WordBuilder) -> (r: Result<()>)
        requires
            old(wb).wf(),
            old(self).wf(),
        ensures
            final(wb).wf(),
            crate::text::extends(old(wb).value@, final(wb).value@),
            same_source(*old(self), *final(self)),
            final(self).fuel == old(self).fuel,
            r is Ok ==> final(self).pos > old(self).pos,
            final(wb).spans@ == old(wb).spans@,
            final(wb).context_stack@ == old(wb).context_stack@,
            r is Ok <==> escaped_close(old(self).input@, old(self).pos as int, '\'') is Some,
            r is Ok ==> final(self).pos == escaped_close(old(self).input@, old(self).pos as int, '\'')->0,
            r is Ok ==> final(wb).value@ == old(wb).value@ + old(self).input@.subrange(old(self).pos as int, final(self).pos as int),
    {
        loop
            invariant
            wb.wf(),
            crate::text::extends(old(wb).value@, wb.value@),
                same_source(*old(self), *self),
                self.fuel == old(self).fuel,
                self.pos >= old(self).pos,
                wb.spans@ == old(wb).spans@,
                wb.context_stack@ == old(wb).context_stack@,
                escaped_close(self.input@, self.pos as int, '\'') == escaped_close(old(self).input@, old(self).pos as int, '\''),
                wb.value@ == old(wb).value@ + old(self).input@.subrange(old(self).pos as int, self.pos as int),
            decreases self.input@.len() - self.pos,
        {
            let ghost p = self.pos;
            let ghost s0 = old(self).input@;
            let ghost p0 = old(self).pos as int;
            match self.peek_char() {
                Some('\'') => {
                    self.advance_char();
                    wb.push('\'');
                    assert(s0.subrange(p0, p + 1) =~= s0.subrange(p0, p as int).push('\''));
                    return Ok(());
                }
                Some('\\') => {
                    self.advance_char();
                    wb.push('\\');
                    assert(s0.subrange(p0, p + 1) =~= s0.subrange(p0, p as int).push('\\'));
                    match self.advance_char() {
                        Some(next) => {
                            wb.push(next);
                            assert(s0.subrange(p0, p + 2) =~= s0.subrange(p0, p + 1).push(next));
                        }
                        None => {},
                    }
                }
                Some(c) => {
                    self.advance_char();
                    wb.push(c);
                    assert(s0.subrange(p0, p + 1) =~= s0.subrange(p0, p as int).push(c));
                }
                None => {
                    return Err(RableError::matched_pair("unterminated ANSI-C quote", self.pos, self.line));
                }
            }
        }
    }

    /// Reads the rest of a double-quoted string (after the opening quote).
    pub fn read_double_quoted(&mut self, wb: &mut WordBuilder) -> (r: Result<()>)
        requires
            old(wb).wf(),
            old(self).wf(),
        ensures
            final(wb).wf(),
            crate::text::extends(old(wb).value@, final(wb).value@),
            same_source(*old(self), *final(self)),
            final(wb).context_stack@ == old(wb).context_stack@,
            r is Ok ==> final(wb).value@.len() > old(wb).value@.len() && final(wb).value@.last() == '"',
            r is Ok ==> 0 < final(self).pos <= final(self).input@.len() && final(self).input@[final(self).pos - 1] == '"',
        decreases old(self).fuel.budget,
    {
        self.tick()?;
        wb.enter_context(QuotingContext::DoubleQuote);
        let result = self.read_double_quoted_inner(wb);
        wb.leave_context();
        assert(wb.context_stack@ =~= old(wb).context_stack@);
        result
    }

    fn read_double_quoted_inner(&mut self, wb: &mut WordBuilder) -> (r: Result<()>)
        requires
            old(wb).wf(),
            old(self).wf(),
        ensures
            final(wb).wf(),
            crate::text::extends(old(wb).value@, final(wb).value@),
            same_source(*old(self), *final(self)),
            final(wb).context_stack@ == old(wb).context_stack@,
            r is Ok ==> final(wb).value@.len() > old(wb).value@.len() && final(wb).value@.last() == '"',
            r is Ok ==> 0 < final(self).pos <= final(self).input@.len() && final(self).input@[final(self).pos - 1] == '"',
        decreases old(self).fuel.budget,
    {
        loop
            invariant
            wb.wf(),
            crate::text::extends(old(wb).value@, wb.value@),
                same_source(*old(self), *self),
                wb.context_stack@ == old(wb).context_stack@,
            decreases self.fuel.budget,
        {
            self.tick()?;
            match self.peek_char() {
                Some('"') => {
                    self.advance_char();
                    wb.push('"');
                    return Ok(());
                }
                Some('\\') => {
                    self.advance_char();
                    if self.peek_char() == Some('\n') {
                        self.advance_char();
                    } else {
                        wb.push('\\');
                        match self.advance_char() {
                            Some(next) => wb.push(next),
                            None => {},
                        }
                    }
                }
                Some('$') => {
                    if self.peek_at(1) == Some('"') {
                        self.advance_char();
                        wb.push('$');
                    } else {
                        self.read_dollar(wb)?;
                    }
                }
                Some('`') => {
                    self.advance_char();
                    wb.push('`');
                    self.read_backtick(wb)?;
                }
                Some(c) => {
                    self.advance_char();
                    wb.push(c);
                }
                None => {
                    return Err(RableError::matched_pair("unterminated double quote", self.pos, self.line));
                }
            }
        }
    }
}

} // verus!
