//! Accumulates a word token's characters together with the spans of the
//! quoting and expansion constructs found inside it.
use vstd::prelude::*;

verus! {

/// The quoting context at the point where a span was recorded.
#[derive(Debug, Clone, Copy, PartialEq, Eq, Structural)]
pub enum QuotingContext {
    /// Top-level word context (no quoting).
    Plain,
    /// Inside double quotes `"..."`.
    DoubleQuote,
    /// Inside parameter expansion `${...}`.
    ParamExpansion,
    /// Inside command substitution `$(...)`.
    CommandSub,
    /// Inside backtick command substitution.
    Backtick,
}

/// The kind of construct a [`WordSpan`] covers.
#[derive(Debug, Clone, Copy, PartialEq, Eq, Structural)]
pub enum WordSpanKind {
    /// Command substitution: `$(...)`.
    CommandSub,
    /// ANSI-C quoting: `$'...'`.
    AnsiCQuote,
    /// Locale translation string: `$"..."`.
    LocaleString,
    /// Process substitution: `<(...)` or `>(...)`.
    ProcessSub(char),
    /// Single-quoted string.
    SingleQuoted,
    /// Double-quoted string.
    DoubleQuoted,
    /// Parameter expansion: `${...}`.
    ParamExpansion,
    /// Simple variable: `$VAR`.
    SimpleVar,
    /// Arithmetic substitution: `$((...))`.
    ArithmeticSub,
    /// Backtick command substitution.
    Backtick,
    /// Array subscript: `[...]`.
    BracketSubscript,
    /// Extended glob pattern: `@(...)`, `?(...)`, etc.
    Extglob(char),
    /// Deprecated arithmetic: `$[...]`.
    DeprecatedArith,
    /// Backslash escape `\X`.
    Escape,
    /// Brace expansion `{a,b}` / `{1..3}`.
    BraceExpansion,
}

/// A range of character offsets within a word value, identifying a
/// quoting or expansion construct and the context it appeared in.
#[derive(Debug, Clone, Copy, PartialEq, Eq)]
pub struct WordSpan {
    /// Start offset in the word value (inclusive).
    pub start: usize,
    /// End offset in the word value (exclusive).
    pub end: usize,
    /// The kind of construct.
    pub kind: WordSpanKind,
    /// The quoting context the span was recorded in.
    pub context: QuotingContext,
}

/// Accumulates a word token's value and its spans.
pub struct WordBuilder {
    /// The characters of the word built so far.
    pub value: Vec<char>,
    /// Spans recorded so far, in the order they were completed.
    pub spans: Vec<WordSpan>,
    /// Stack of quoting contexts; the current context is the last entry.
    pub context_stack: Vec<QuotingContext>,
}

/// The quoting context a stack describes: its last entry, or `Plain` when empty.
pub open spec fn context_of(stack: Seq<QuotingContext>) -> QuotingContext {
    if stack.len() == 0 {
        QuotingContext::Plain
    } else {
        stack.last()
    }
}

/// Every span lies within a value of `len` characters.
pub open spec fn spans_within(spans: Seq<WordSpan>, len: nat) -> bool {
    forall|i: int| 0 <= i < spans.len() ==> (#[trigger] spans[i]).start <= spans[i].end <= len
}

impl WordBuilder {
    /// Every recorded span lies within the value built so far.
    pub open spec fn wf(&self) -> bool {
        spans_within(self.spans@, self.value@.len())
    }

    /// An empty builder at top-level context.
    pub fn new() -> (r: Self)
        ensures
            r.value@.len() == 0,
            r.spans@.len() == 0,
            r.context_stack@.len() == 0,
    {
        WordBuilder { value: Vec::new(), spans: Vec::new(), context_stack: Vec::new() }
    }

    /// Appends one character.
    pub fn push(&mut self, c: char)
        ensures
            old(self).wf() ==> final(self).wf(),
            final(self).value@ == old(self).value@.push(c),
            final(self).spans@ == old(self).spans@,
            final(self).context_stack@ == old(self).context_stack@,
    {
        self.value.push(c);
    }

    /// Appends a run of characters.
    pub fn push_str(&mut self, s: &[char])
        ensures
            old(self).wf() ==> final(self).wf(),
            final(self).value@ == old(self).value@ + s@,
            final(self).spans@ == old(self).spans@,
            final(self).context_stack@ == old(self).context_stack@,
    {
        let mut i: usize = 0;
        while i < s.len()
            invariant
                i <= s@.len(),
                self.value@ == old(self).value@ + s@.subrange(0, i as int),
                self.spans@ == old(self).spans@,
                self.context_stack@ == old(self).context_stack@,
            decreases s.len() - i,
        {
            self.value.push(s[i]);
            i = i + 1;
        }
        assert(s@.subrange(0, s@.len() as int) =~= s@);
    }

    /// True when the word built so far ends with `c`.
    pub fn ends_with(&self, c: char) -> (r: bool)
        ensures
            r == (self.value@.len() > 0 && self.value@.last() == c),
    {
        let n = self.value.len();
        n > 0 && self.value[n - 1] == c
    }

    /// True when nothing has been pushed yet.
    pub fn is_empty(&self) -> (r: bool)
        ensures
            r == (self.value@.len() == 0),
    {
        self.value.len() == 0
    }

    /// Number of characters pushed so far.
    pub fn len(&self) -> (r: usize)
        ensures
            r == self.value@.len(),
    {
        self.value.len()
    }

    /// The current offset: where a span started now would begin.
    pub fn span_start(&self) -> (r: usize)
        ensures
            r == self.value@.len(),
    {
        self.value.len()
    }

    /// Records a completed span from `start` to the current end of the
    /// value, tagged with the current quoting context.
    pub fn record(&mut self, start: usize, kind: WordSpanKind)
        ensures
            old(self).wf() && start <= old(self).value@.len() ==> final(self).wf(),
            final(self).value@ == old(self).value@,
            final(self).context_stack@ == old(self).context_stack@,
            final(self).spans@ == old(self).spans@.push(
                WordSpan {
                    start,
                    end: old(self).value@.len() as usize,
                    kind,
                    context: context_of(old(self).context_stack@),
                },
            ),
    {
        let context = self.current_context();
        let end = self.value.len();
        self.spans.push(WordSpan { start, end, kind, context });
    }

    /// The current quoting context.
    pub fn current_context(&self) -> (r: QuotingContext)
        ensures
            r == context_of(self.context_stack@),
    {
        let n = self.context_stack.len();
        if n == 0 {
            QuotingContext::Plain
        } else {
            self.context_stack[n - 1]
        }
    }

    /// Enters a quoting context.
    pub fn enter_context(&mut self, ctx: QuotingContext)
        ensures
            old(self).wf() ==> final(self).wf(),
            final(self).context_stack@ == old(self).context_stack@.push(ctx),
            final(self).value@ == old(self).value@,
            final(self).spans@ == old(self).spans@,
    {
        self.context_stack.push(ctx);
    }

    /// Leaves the current quoting context (no effect at top level).
    pub fn leave_context(&mut self)
        ensures
            old(self).wf() ==> final(self).wf(),
            old(self).context_stack@.len() > 0 ==> final(self).context_stack@
                == old(self).context_stack@.drop_last(),
            old(self).context_stack@.len() == 0 ==> final(self).context_stack@.len() == 0,
            final(self).value@ == old(self).value@,
            final(self).spans@ == old(self).spans@,
    {
        self.context_stack.pop();
    }
}

/// Entering a quoting context and then leaving it gives back the context
/// that was current before.
pub proof fn lemma_enter_leave_restores(stack: Seq<QuotingContext>, ctx: QuotingContext)
    ensures
        context_of(stack.push(ctx)) == ctx,
        context_of(stack.push(ctx).drop_last()) == context_of(stack),
{
    assert(stack.push(ctx).drop_last() =~= stack);
}

} // verus!
