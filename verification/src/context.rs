//! Shared context tracking for quoting and `case` nesting.
use vstd::prelude::*;
use crate::text::{eq2, eq4, push_char};

verus! {

/// Tracks `case`/`in`/`esac` nesting while matching parentheses: inside a
/// case block, `)` after a pattern does not close the enclosing group.
#[derive(Debug, Clone, Copy)]
pub struct CaseTracker {
    /// Nesting depth of case statements.
    pub depth: usize,
    /// Whether a pattern is expected (after `in` or `;;`).
    pub in_pattern: bool,
}

/// What a `CaseTracker` is told: a completed word, a pattern's `)`, or a
/// `;;`-style terminator.
pub enum CaseEvent {
    Word(Seq<char>),
    ClosePattern,
    ResumePattern,
}

/// The tracker after one event.
pub open spec fn case_step(t: CaseTracker, e: CaseEvent) -> CaseTracker {
    match e {
        CaseEvent::Word(w) => {
            if w == seq!['c', 'a', 's', 'e'] {
                CaseTracker { depth: if t.depth < usize::MAX { (t.depth + 1) as usize } else { t.depth }, ..t }
            } else if w == seq!['i', 'n'] {
                CaseTracker { in_pattern: t.in_pattern || t.depth > 0, ..t }
            } else if w == seq!['e', 's', 'a', 'c'] && t.depth > 0 {
                CaseTracker { depth: (t.depth - 1) as usize, in_pattern: t.in_pattern && t.depth > 1 }
            } else {
                t
            }
        },
        CaseEvent::ClosePattern => CaseTracker { in_pattern: false, ..t },
        CaseEvent::ResumePattern => CaseTracker { in_pattern: t.in_pattern || t.depth > 0, ..t },
    }
}

/// The tracker after a sequence of events.
pub open spec fn case_run(t: CaseTracker, es: Seq<CaseEvent>) -> CaseTracker
    decreases es.len(),
{
    if es.len() == 0 { t } else { case_step(case_run(t, es.drop_last()), es.last()) }
}

/// Whatever sequence of calls a tracker goes through from `new`, it only
/// ever expects a pattern inside a case block: a `)` is a pattern
/// terminator (and a `(` a pattern opener) only while some `case` is open.
pub proof fn lemma_case_tracker_patterns_only_in_case(es: Seq<CaseEvent>)
    ensures
        case_run(CaseTracker { depth: 0, in_pattern: false }, es).in_pattern
            ==> case_run(CaseTracker { depth: 0, in_pattern: false }, es).depth > 0,
    decreases es.len(),
{
    if es.len() > 0 {
        lemma_case_tracker_patterns_only_in_case(es.drop_last());
    }
}

impl CaseTracker {
    /// A tracker outside any case statement.
    pub fn new() -> (r: Self)
        ensures
            r.depth == 0,
            !r.in_pattern,
    {
        CaseTracker { depth: 0, in_pattern: false }
    }

    /// Processes a completed word at a word boundary.
    pub fn check_word(&mut self, word: &[char])
        ensures
            word@ == seq!['c', 'a', 's', 'e'] ==> final(self).depth == (if old(self).depth
                < usize::MAX { old(self).depth + 1 } else { old(self).depth as int }) && final(self).in_pattern
                == old(self).in_pattern,
            word@ == seq!['i', 'n'] ==> final(self).depth == old(self).depth && final(self).in_pattern
                == (old(self).in_pattern || old(self).depth > 0),
            word@ == seq!['e', 's', 'a', 'c'] && old(self).depth > 0 ==> final(self).depth
                == old(self).depth - 1 && final(self).in_pattern == (old(self).in_pattern
                && old(self).depth > 1),
            !(word@ == seq!['c', 'a', 's', 'e']) && !(word@ == seq!['i', 'n']) && !(word@ == seq![
                'e',
                's',
                'a',
                'c',
            ] && old(self).depth > 0) ==> *final(self) == *old(self),
            *final(self) == case_step(*old(self), CaseEvent::Word(word@)),
    {
        if eq4(word, 'c', 'a', 's', 'e') {
            self.depth = self.depth.saturating_add(1);
        } else if eq2(word, 'i', 'n') {
            if self.depth > 0 {
                self.in_pattern = true;
            }
        } else if eq4(word, 'e', 's', 'a', 'c') {
            if self.depth > 0 {
                self.depth = self.depth - 1;
                if self.depth == 0 {
                    self.in_pattern = false;
                }
            }
        }
    }

    /// True if `)` here is a case pattern terminator.
    pub fn is_pattern_close(&self) -> (r: bool)
        ensures
            r == (self.depth > 0 && self.in_pattern),
    {
        self.depth > 0 && self.in_pattern
    }

    /// Called after a `)` that closed a pattern.
    pub fn close_pattern(&mut self)
        ensures
            final(self).depth == old(self).depth,
            !final(self).in_pattern,
            *final(self) == case_step(*old(self), CaseEvent::ClosePattern),
    {
        self.in_pattern = false;
    }

    /// Called after `;;`, `;&` or `;;&`: a pattern is expected again.
    pub fn resume_pattern(&mut self)
        ensures
            final(self).depth == old(self).depth,
            final(self).in_pattern == (old(self).in_pattern || old(self).depth > 0),
            *final(self) == case_step(*old(self), CaseEvent::ResumePattern),
    {
        if self.depth > 0 {
            self.in_pattern = true;
        }
    }

    /// True if `(` here opens a case pattern (and does not nest).
    pub fn is_pattern_open(&self) -> (r: bool)
        ensures
            r == (self.depth > 0 && self.in_pattern),
    {
        self.depth > 0 && self.in_pattern
    }
}

/// After a pattern's `)` nothing is a pattern terminator until the next
/// `;;`, and after `;;` inside a case block the next `)` is one again.
pub proof fn lemma_close_then_resume(t: CaseTracker)
    requires
        t.depth > 0,
    ensures
        !(CaseTracker { in_pattern: false, ..t }).in_pattern,
        ({
            let closed = CaseTracker { in_pattern: false, ..t };
            let resumed = CaseTracker { in_pattern: closed.in_pattern || closed.depth > 0, ..closed };
            resumed.depth > 0 && resumed.in_pattern
        }),
{
}

/// Just past the first `q` at or after `p`, or the end of `s`.
pub open spec fn quote_end(s: Seq<char>, p: int, q: char) -> int
    decreases s.len() - p,
{
    if p < 0 || p >= s.len() { s.len() as int } else if s[p] == q { p + 1 } else { quote_end(s, p + 1, q) }
}

/// Just past the first `q` at or after `p` that no backslash escapes, or
/// the end of `s`.
pub open spec fn escaped_end(s: Seq<char>, p: int, q: char) -> int {
    match crate::lexer::expansions::escaped_close(s, p, q) {
        Some(e) => e,
        None => s.len() as int,
    }
}

/// Skips a single-quoted region starting at the opening `'` at `*pos`,
/// copying everything through the closing `'` (or to the end) into `out`.
pub fn skip_single_quoted(chars: &[char], pos: &mut usize, out: &mut String)
    requires
        *old(pos) < chars@.len(),
    ensures
        *old(pos) < *final(pos) <= chars@.len(),
        final(out)@ == old(out)@ + chars@.subrange(*old(pos) as int, *final(pos) as int),
        forall|i: int| *old(pos) < i < *final(pos) - 1 ==> chars@[i] != '\'',
        *final(pos) < chars@.len() ==> chars@[*final(pos) - 1] == '\'',
        *final(pos) - 1 > *old(pos) ==> chars@[*final(pos) - 1] == '\'' || *final(pos) == chars@.len(),
        *final(pos) == quote_end(chars@, *old(pos) + 1, '\''),
{
    let start = *pos;
    push_char(out, chars[*pos]);
    *pos = *pos + 1;
    while *pos < chars.len() && chars[*pos] != '\''
        invariant
            start < *pos <= chars@.len(),
            out@ == old(out)@ + chars@.subrange(start as int, *pos as int),
            forall|i: int| start < i < *pos ==> chars@[i] != '\'',
            quote_end(chars@, *pos as int, '\'') == quote_end(chars@, start + 1, '\''),
        decreases chars.len() - *pos,
    {
        let p = *pos;
        push_char(out, chars[p]);
        assert(chars@.subrange(start as int, p + 1) =~= chars@.subrange(start as int, p as int).push(chars@[p as int]));
        *pos = p + 1;
    }
    if *pos < chars.len() {
        let p = *pos;
        push_char(out, chars[p]);
        assert(chars@.subrange(start as int, p + 1) =~= chars@.subrange(start as int, p as int).push(chars@[p as int]));
        *pos = p + 1;
    }
}

/// Skips a double-quoted region starting at the opening `"` at `*pos`;
/// a backslash keeps the next character. Copies everything into `out`.
pub fn skip_double_quoted(chars: &[char], pos: &mut usize, out: &mut String)
    requires
        *old(pos) < chars@.len(),
    ensures
        *old(pos) < *final(pos) <= chars@.len(),
        final(out)@ == old(out)@ + chars@.subrange(*old(pos) as int, *final(pos) as int),
        *final(pos) < chars@.len() ==> chars@[*final(pos) - 1] == '"',
        *final(pos) == escaped_end(chars@, *old(pos) + 1, '"'),
{
    skip_escaped_region(chars, pos, out, '"')
}

/// Skips a backtick region starting at the opening backtick at `*pos`;
/// a backslash keeps the next character. Copies everything into `out`.
pub fn skip_backtick(chars: &[char], pos: &mut usize, out: &mut String)
    requires
        *old(pos) < chars@.len(),
    ensures
        *old(pos) < *final(pos) <= chars@.len(),
        final(out)@ == old(out)@ + chars@.subrange(*old(pos) as int, *final(pos) as int),
        *final(pos) < chars@.len() ==> chars@[*final(pos) - 1] == '`',
        *final(pos) == escaped_end(chars@, *old(pos) + 1, '`'),
{
    skip_escaped_region(chars, pos, out, '`')
}

fn skip_escaped_region(chars: &[char], pos: &mut usize, out: &mut String, close: char)
    requires
        *old(pos) < chars@.len(),
        close != '\\',
    ensures
        *old(pos) < *final(pos) <= chars@.len(),
        final(out)@ == old(out)@ + chars@.subrange(*old(pos) as int, *final(pos) as int),
        *final(pos) < chars@.len() ==> chars@[*final(pos) - 1] == close,
        *final(pos) == escaped_end(chars@, *old(pos) + 1, close),
{
    let start = *pos;
    push_char(out, chars[*pos]);
    *pos = *pos + 1;
    while *pos < chars.len() && chars[*pos] != close
        invariant
            start < *pos <= chars@.len(),
            out@ == old(out)@ + chars@.subrange(start as int, *pos as int),
            crate::lexer::expansions::escaped_close(chars@, *pos as int, close)
                == crate::lexer::expansions::escaped_close(chars@, start + 1, close),
        decreases chars.len() - *pos,
    {
        let p = *pos;
        if chars[p] == '\\' && p + 1 < chars.len() {
            push_char(out, chars[p]);
            assert(chars@.subrange(start as int, p + 1) =~= chars@.subrange(start as int, p as int).push(chars@[p as int]));
            *pos = p + 1;
        }
        let q = *pos;
        push_char(out, chars[q]);
        assert(chars@.subrange(start as int, q + 1) =~= chars@.subrange(start as int, q as int).push(chars@[q as int]));
        *pos = q + 1;
    }
    if *pos < chars.len() {
        let p = *pos;
        push_char(out, chars[p]);
        assert(chars@.subrange(start as int, p + 1) =~= chars@.subrange(start as int, p as int).push(chars@[p as int]));
        *pos = p + 1;
    }
}

/// Number of consecutive backslashes right before position `pos`.
pub open spec fn backslash_run(s: Seq<char>, pos: int) -> nat
    decreases pos,
{
    if pos <= 0 || pos > s.len() {
        0
    } else if s[pos - 1] == '\\' {
        1 + backslash_run(s, pos - 1)
    } else {
        0
    }
}

/// True if the character at `pos` is escaped: an odd number of
/// backslashes stands right before it.
pub fn is_backslash_escaped(chars: &[char], pos: usize) -> (r: bool)
    requires
        pos <= chars@.len(),
    ensures
        r == (backslash_run(chars@, pos as int) % 2 == 1),
{
    let mut count: usize = 0;
    let mut j = pos;
    while j > 0 && chars[j - 1] == '\\'
        invariant
            j <= pos <= chars@.len(),
            count == pos - j,
            backslash_run(chars@, pos as int) == count + backslash_run(chars@, j as int),
        decreases j,
    {
        count = count + 1;
        j = j - 1;
    }
    count % 2 != 0
}

} // verus!
