//! The context-sensitive bash lexer.
use vstd::prelude::*;
use crate::error::{RableError, Result};
use crate::text::push_char;
use crate::token::{Token, TokenType};

pub mod brace_expansion;
pub mod expansions;
pub mod heredoc;
pub mod operators;
pub mod quotes;
pub mod stream;
pub mod word_builder;
pub mod words;

pub use heredoc::PendingHereDoc;

verus! {

/// The number of steps a lexer and the parsers that drive it may take
/// before giving up. It is only ever decreased, one unit per call of a
/// function that may re-enter the lexer; it starts so large that no real
/// input exhausts it.
pub const START_BUDGET: u64 = 0xffff_ffff_ffff_ffff;

/// Step budget and nesting level shared by a lexer and everything it starts.
#[derive(Debug, Clone, Copy)]
pub struct Fuel {
    /// Steps left.
    pub budget: u64,
    /// How many word decompositions enclose this parse (0 at top level).
    pub nest: usize,
}

impl Fuel {
    /// Fresh fuel for a top-level parse.
    pub fn fresh() -> (r: Fuel)
        ensures
            r.budget == START_BUDGET,
            r.nest == 0,
    {
        Fuel { budget: START_BUDGET, nest: 0 }
    }

    /// Spends one step, failing when none is left.
    pub fn tick(&mut self, pos: usize, line: usize) -> (r: Result<()>)
        ensures
            r is Ok <==> old(self).budget > 0,
            r is Ok ==> final(self).budget == old(self).budget - 1,
            r is Err ==> final(self).budget == old(self).budget,
            final(self).nest == old(self).nest,
    {
        if self.budget == 0 {
            Err(RableError::parse("parsing step budget exhausted", pos, line))
        } else {
            self.budget = self.budget - 1;
            Ok(())
        }
    }
}

/// Context flags the parser sets to steer the lexer.
#[derive(Debug, Clone, Copy)]
pub struct LexerContext {
    /// At command start position: reserved words and assignments are possible.
    pub command_start: bool,
    /// Reserved-word recognition is enabled.
    pub reserved_words_ok: bool,
    /// Inside a `[[ ]]` conditional expression.
    pub cond_expr: bool,
}

impl LexerContext {
    /// The context at the start of input.
    pub fn initial() -> (r: LexerContext)
        ensures
            r.command_start,
            r.reserved_words_ok,
            !r.cond_expr,
    {
        LexerContext { command_start: true, reserved_words_ok: true, cond_expr: false }
    }
}

/// Which nested construct a lexer is scanning, if any.
#[derive(Debug, Clone, Copy, PartialEq, Eq, Structural)]
pub enum LexerMode {
    /// Top-level lexer.
    Normal,
    /// Fork running inside `$(...)` (or a process substitution).
    Cmdsub,
    /// Fork running inside a backtick command substitution.
    Backtick,
}

/// Saved lexer position, for re-reading input after a failed attempt.
#[derive(Debug, Clone)]
pub struct LexerCheckpoint {
    pub pos: usize,
    pub line: usize,
    pub peeked: Option<Token>,
    pub last_token_end: usize,
}

/// Hand-written context-sensitive lexer for bash.
pub struct Lexer {
    /// The characters of the whole source.
    pub input: Vec<char>,
    /// Position of the next unread character.
    pub pos: usize,
    /// Current line (1-based).
    pub line: usize,
    /// A token read ahead by `peek_token`.
    pub peeked: Option<Token>,
    /// Whether extended glob patterns are enabled.
    pub extglob: bool,
    /// Context flags set by the parser.
    pub ctx: LexerContext,
    /// Here-documents whose bodies start after the next newline.
    pub pending_heredocs: Vec<PendingHereDoc>,
    /// Bodies of here-documents already read.
    pub heredoc_contents: Vec<String>,
    /// End position of the most recently consumed token.
    pub last_token_end: usize,
    /// Which nested construct this lexer scans.
    pub mode: LexerMode,
    /// Depth of the parser driving this lexer.
    pub parser_depth: usize,
    /// Step budget and nesting level.
    pub fuel: Fuel,
}

/// `b` reads the same source as the lexer `a`, with the same settings and
/// nesting, a position inside the source (which may lie before `a`'s), and
/// no more budget than `a`. Line and look-ahead are not constrained.
pub open spec fn same_source(a: Lexer, b: Lexer) -> bool {
    &&& b.input@ == a.input@
    &&& b.fuel.budget <= a.fuel.budget
    &&& b.fuel.nest == a.fuel.nest
    &&& b.extglob == a.extglob
    &&& b.mode == a.mode
    &&& b.pos <= b.input@.len()
}

/// Where a run of blanks (spaces, tabs and backslash-newline pairs)
/// starting at `p` ends.
pub open spec fn blanks_end(s: Seq<char>, p: int) -> int
    decreases s.len() - p,
{
    if 0 <= p < s.len() && (s[p] == ' ' || s[p] == '\t') {
        blanks_end(s, p + 1)
    } else if 0 <= p && p + 1 < s.len() && s[p] == '\\' && s[p + 1] == '\n' {
        blanks_end(s, p + 2)
    } else {
        p
    }
}

/// The first newline at or after `p`, or the end of `s`.
pub open spec fn line_end(s: Seq<char>, p: int) -> int
    decreases s.len() - p,
{
    if 0 <= p < s.len() && s[p] != '\n' { line_end(s, p + 1) } else { p }
}

/// `o` with `pre` put before the text it carries.
pub open spec fn prefixed(pre: Seq<char>, o: Option<(int, Seq<char>)>) -> Option<(int, Seq<char>)> {
    match o {
        Some((e, t)) => Some((e, pre + t)),
        None => None,
    }
}

/// Putting `y` and then `x` before a text puts `x + y` before it.
pub proof fn lemma_prefixed_twice(x: Seq<char>, y: Seq<char>, o: Option<(int, Seq<char>)>)
    ensures
        prefixed(x, prefixed(y, o)) == prefixed(x + y, o),
{
    match o {
        Some((e, t)) => {
            assert(x + (y + t) =~= (x + y) + t);
        }
        None => {}
    }
}

/// Reading from `p` at parenthesis nesting `depth` up to the `))` that
/// closes an arithmetic body: the offset after that `))` and the text read
/// before it, with backslash-newline dropped; `None` when input ends first.
pub open spec fn until_double_paren(s: Seq<char>, p: int, depth: int) -> Option<(int, Seq<char>)>
    decreases s.len() - p,
{
    if p < 0 || p >= s.len() {
        None
    } else if s[p] == ')' && depth == 0 {
        if p + 1 < s.len() && s[p + 1] == ')' {
            Some((p + 2, Seq::empty()))
        } else {
            prefixed(seq![')'], until_double_paren(s, p + 1, 0))
        }
    } else if s[p] == ')' {
        prefixed(seq![')'], until_double_paren(s, p + 1, depth - 1))
    } else if s[p] == '(' {
        prefixed(seq!['('], until_double_paren(s, p + 1, if depth < i64::MAX { depth + 1 } else { depth }))
    } else if s[p] == '\\' {
        if p + 1 < s.len() && s[p + 1] == '\n' {
            until_double_paren(s, p + 2, depth)
        } else if p + 1 < s.len() {
            prefixed(seq!['\\', s[p + 1]], until_double_paren(s, p + 2, depth))
        } else {
            None
        }
    } else {
        prefixed(seq![s[p]], until_double_paren(s, p + 1, depth))
    }
}

/// The line reached from line `l` after reading `s`: one more for each
/// newline, stopping at the largest line number.
pub open spec fn line_after(l: nat, s: Seq<char>) -> nat
    decreases s.len(),
{
    if s.len() == 0 {
        l
    } else {
        let m = line_after(l, s.drop_last());
        if s.last() == '\n' && m < usize::MAX { m + 1 } else { m }
    }
}

/// Reading `s[o..q]` from line `l` is reading `s[o..p]` and then `s[p..q]`.
pub proof fn lemma_line_after_split(l: nat, s: Seq<char>, o: int, p: int, q: int)
    requires
        0 <= o <= p <= q <= s.len(),
    ensures
        line_after(l, s.subrange(o, q)) == line_after(line_after(l, s.subrange(o, p)), s.subrange(p, q)),
    decreases q - p,
{
    if q == p {
        assert(s.subrange(p, q) =~= Seq::<char>::empty());
        assert(s.subrange(o, q) =~= s.subrange(o, p));
    } else {
        lemma_line_after_split(l, s, o, p, q - 1);
        assert(s.subrange(o, q).drop_last() =~= s.subrange(o, q - 1));
        assert(s.subrange(p, q).drop_last() =~= s.subrange(p, q - 1));
    }
}

/// Only blanks are left from the lexer's position on.
pub open spec fn blank_rest(l: Lexer) -> bool {
    blanks_end(l.input@, l.pos as int) >= l.input@.len()
}

/// The token read ahead is the end of input.
pub open spec fn eof_peeked(l: Lexer) -> bool {
    l.peeked is Some && l.peeked->0.kind == TokenType::Eof
}

/// After the blanks at the lexer's position a plain word follows (see
/// `plain_word_at`), and `extra` steps more than its length are left.
pub open spec fn plain_word_next(l: Lexer, extra: int) -> bool {
    let q = blanks_end(l.input@, l.pos as int);
    &&& words::plain_word_at(l.input@, q)
    &&& l.fuel.budget >= words::plain_run_end(l.input@, q) - q + extra
}

/// `t` is that plain word as one token: its text, where it starts and its
/// kind in the lexer's context.
pub open spec fn plain_word_token(a: Lexer, t: Token) -> bool {
    let q = blanks_end(a.input@, a.pos as int);
    &&& t.value@ == a.input@.subrange(q, words::plain_run_end(a.input@, q))
    &&& t.pos == q
    &&& t.kind == words::word_kind(a.ctx, t.value@)
}

/// The position just after that plain word.
pub open spec fn plain_word_end(a: Lexer) -> int {
    words::plain_run_end(a.input@, blanks_end(a.input@, a.pos as int))
}

/// `r` is that plain word, read as one token, and `b` is just after it.
pub open spec fn plain_word_read(a: Lexer, b: Lexer, r: Result<Token>) -> bool {
    &&& r is Ok
    &&& plain_word_token(a, r->Ok_0)
    &&& b.pos == plain_word_end(a)
}

impl Lexer {
    /// The lexer's position lies within its source.
    pub open spec fn wf(&self) -> bool {
        self.pos <= self.input@.len()
    }

    /// The character at `i`, if any.
    pub open spec fn char_at(&self, i: int) -> Option<char> {
        if 0 <= i < self.input@.len() { Some(self.input@[i]) } else { None }
    }

    /// A lexer over `source` with fresh fuel.
    pub fn new(source: &str, extglob: bool) -> (r: Self)
        ensures
            r.wf(),
            r.input@ == source@,
            r.pos == 0,
            r.line == 1,
            r.extglob == extglob,
            r.mode == LexerMode::Normal,
            r.fuel.budget == START_BUDGET,
            r.fuel.nest == 0,
            r.peeked is None,
            r.pending_heredocs@.len() == 0,
            r.heredoc_contents@.len() == 0,
    {
        Self::with_fuel(crate::text::chars_of(source), extglob, Fuel::fresh())
    }

    /// A lexer over the given characters with the given fuel.
    pub fn with_fuel(input: Vec<char>, extglob: bool, fuel: Fuel) -> (r: Self)
        ensures
            r.wf(),
            r.input@ == input@,
            r.pos == 0,
            r.line == 1,
            r.extglob == extglob,
            r.mode == LexerMode::Normal,
            r.fuel == fuel,
            r.peeked is None,
            r.pending_heredocs@.len() == 0,
            r.heredoc_contents@.len() == 0,
    {
        Lexer {
            input,
            pos: 0,
            line: 1,
            peeked: None,
            extglob,
            ctx: LexerContext::initial(),
            pending_heredocs: Vec::new(),
            heredoc_contents: Vec::new(),
            last_token_end: 0,
            mode: LexerMode::Normal,
            parser_depth: 0,
            fuel,
        }
    }

    /// A fresh lexer over the same source, starting at the current
    /// position, in the given mode.
    pub fn fork(&self, mode: LexerMode) -> (r: Self)
        requires
            self.wf(),
        ensures
            r.wf(),
            r.input@ == self.input@,
            r.pos == self.pos,
            r.line == self.line,
            r.extglob == self.extglob,
            r.mode == mode,
            r.fuel == self.fuel,
            r.peeked is None,
    {
        Lexer {
            input: self.input.clone(),
            pos: self.pos,
            line: self.line,
            peeked: None,
            extglob: self.extglob,
            ctx: LexerContext::initial(),
            pending_heredocs: Vec::new(),
            heredoc_contents: Vec::new(),
            last_token_end: self.pos,
            mode,
            parser_depth: self.parser_depth,
            fuel: self.fuel,
        }
    }

    /// Spends one step of the budget.
    pub fn tick(&mut self) -> (r: Result<()>)
        requires
            old(self).wf(),
        ensures
            r is Ok <==> old(self).fuel.budget > 0,
            r is Ok ==> final(self).fuel.budget == old(self).fuel.budget - 1,
            same_source(*old(self), *final(self)),
            final(self).pos == old(self).pos,
            *final(self) == (Lexer { fuel: final(self).fuel, ..*old(self) }),
    {
        let pos = self.pos;
        let line = self.line;
        self.fuel.tick(pos, line)
    }

    /// Signal that the next word position is a command start.
    pub fn set_command_start(&mut self)
        ensures
            *final(self) == (Lexer { ctx: LexerContext { command_start: true, reserved_words_ok: true, ..old(self).ctx }, ..*old(self) }),
    {
        self.ctx.command_start = true;
        self.ctx.reserved_words_ok = true;
    }

    /// Signal entering a `[[ ]]` conditional expression.
    pub fn enter_cond_expr(&mut self)
        ensures
            *final(self) == (Lexer { ctx: LexerContext { cond_expr: true, ..old(self).ctx }, ..*old(self) }),
    {
        self.ctx.cond_expr = true;
    }

    /// Signal leaving a `[[ ]]` conditional expression.
    pub fn leave_cond_expr(&mut self)
        ensures
            *final(self) == (Lexer { ctx: LexerContext { cond_expr: false, ..old(self).ctx }, ..*old(self) }),
    {
        self.ctx.cond_expr = false;
    }

    /// Saves the position state.
    pub fn checkpoint(&self) -> (r: LexerCheckpoint)
        ensures
            r.pos == self.pos,
            r.line == self.line,
            r.last_token_end == self.last_token_end,
    {
        LexerCheckpoint {
            pos: self.pos,
            line: self.line,
            peeked: self.peeked.clone(),
            last_token_end: self.last_token_end,
        }
    }

    /// Returns to a saved position state.
    pub fn restore(&mut self, cp: LexerCheckpoint)
        requires
            old(self).wf(),
            cp.pos <= old(self).input@.len(),
        ensures
            same_source(*old(self), *final(self)),
            final(self).pos == cp.pos,
            final(self).line == cp.line,
    {
        self.pos = cp.pos;
        self.line = cp.line;
        self.peeked = cp.peeked;
        self.last_token_end = cp.last_token_end;
    }

    /// The parser depth recorded in this lexer.
    pub fn parser_depth(&self) -> (r: usize)
        ensures
            r == self.parser_depth,
    {
        self.parser_depth
    }

    /// Records the depth of the parser driving this lexer.
    pub fn set_parser_depth(&mut self, depth: usize)
        ensures
            *final(self) == (Lexer { parser_depth: depth, ..*old(self) }),
    {
        self.parser_depth = depth;
    }

    /// Consumes the closing backtick at the end of a backtick fork.
    pub fn exit_backtick_fork(&mut self) -> (r: Result<()>)
        requires
            old(self).wf(),
        ensures
            same_source(*old(self), *final(self)),
            r is Ok <==> old(self).char_at(old(self).pos as int) == Some('`'),
            r is Ok ==> final(self).pos == old(self).pos + 1,
    {
        let n = self.input.len();
        match self.peek_char() {
            Some('`') => {
                assert(self.pos < n);
                self.pos = self.pos + 1;
                Ok(())
            }
            _ => Err(RableError::matched_pair("unterminated backtick", self.pos, self.line)),
        }
    }

    /// Returns the current position.
    pub fn pos(&self) -> (r: usize)
        ensures
            r == self.pos,
    {
        self.pos
    }

    /// Returns the end position of the most recently consumed token.
    pub fn last_token_end(&self) -> (r: usize)
        ensures
            r == self.last_token_end,
    {
        self.last_token_end
    }

    /// Returns the current line number.
    pub fn line(&self) -> (r: usize)
        ensures
            r == self.line,
    {
        self.line
    }

    /// Returns the total input length.
    pub fn input_len(&self) -> (r: usize)
        ensures
            r == self.input@.len(),
    {
        self.input.len()
    }

    /// The byte offset (UTF-8) in the source of character index `i`.
    pub fn byte_offset(&self, i: usize) -> (r: usize)
        ensures
            r == crate::text::byte_pos(self.input@, i as int),
    {
        crate::text::byte_offset(self.input.as_slice(), i)
    }

    /// The character at the current position (right after a peeked token).
    pub fn char_after_peeked(&self) -> (r: Option<char>)
        ensures
            r == self.char_at(self.pos as int),
    {
        self.peek_char()
    }

    /// True at the end of the input.
    pub fn at_end(&self) -> (r: bool)
        ensures
            r == (self.pos >= self.input@.len()),
    {
        self.pos >= self.input.len()
    }

    /// The character at the current position.
    pub fn peek_char(&self) -> (r: Option<char>)
        ensures
            r == self.char_at(self.pos as int),
    {
        if self.pos < self.input.len() {
            Some(self.input[self.pos])
        } else {
            None
        }
    }

    /// The character `k` places after the current position.
    pub fn peek_at(&self, k: usize) -> (r: Option<char>)
        requires
            self.wf(),
            k <= 3,
        ensures
            r == self.char_at(self.pos + k),
    {
        let n = self.input.len();
        if self.pos < n && k < n - self.pos {
            Some(self.input[self.pos + k])
        } else {
            None
        }
    }

    /// Advances one character and returns it.
    pub fn advance_char(&mut self) -> (r: Option<char>)
        requires
            old(self).wf(),
        ensures
            same_source(*old(self), *final(self)),
            r == old(self).char_at(old(self).pos as int),
            r is Some ==> final(self).pos == old(self).pos + 1,
            r is None ==> final(self).pos == old(self).pos,
            *final(self) == (Lexer { pos: final(self).pos, line: final(self).line, ..*old(self) }),
            final(self).line == line_after(old(self).line as nat, old(self).input@.subrange(old(self).pos as int, final(self).pos as int)),
    {
        if self.pos < self.input.len() {
            let c = self.input[self.pos];
            proof {
                let t = self.input@.subrange(self.pos as int, self.pos + 1);
                assert(t.drop_last() =~= Seq::<char>::empty());
                assert(t.last() == c);
                reveal_with_fuel(line_after, 2);
            }
            self.pos = self.pos + 1;
            if c == '\n' {
                self.line = self.line.saturating_add(1);
            }
            Some(c)
        } else {
            assert(self.input@.subrange(self.pos as int, self.pos as int) =~= Seq::<char>::empty());
            None
        }
    }

    /// True when a backtick fork sits on its closing backtick.
    pub fn at_backtick_terminator(&self) -> (r: bool)
        ensures
            r == (self.mode == LexerMode::Backtick && self.char_at(self.pos as int) == Some('`')),
    {
        self.mode == LexerMode::Backtick && self.peek_char() == Some('`')
    }

    /// Skips blanks (spaces and tabs) and line continuations.
    pub fn skip_blanks(&mut self)
        requires
            old(self).wf(),
        ensures
            same_source(*old(self), *final(self)),
            final(self).pos >= old(self).pos,
            final(self).pos == blanks_end(old(self).input@, old(self).pos as int),
            *final(self) == (Lexer { pos: final(self).pos, line: final(self).line, ..*old(self) }),
    {
        loop
            invariant
                same_source(*old(self), *self),
                self.pos >= old(self).pos,
                blanks_end(self.input@, self.pos as int) == blanks_end(old(self).input@, old(self).pos as int),
                *self == (Lexer { pos: self.pos, line: self.line, ..*old(self) }),
            ensures
                same_source(*old(self), *self),
                self.pos >= old(self).pos,
                *self == (Lexer { pos: self.pos, line: self.line, ..*old(self) }),
                self.pos == blanks_end(old(self).input@, old(self).pos as int),
            decreases self.input@.len() - self.pos,
        {
            match self.peek_char() {
                Some(' ') | Some('\t') => {
                    self.advance_char();
                }
                Some('\\') => {
                    if self.peek_at(1) == Some('\n') {
                        self.advance_char();
                        self.advance_char();
                    } else {
                        assert(blanks_end(self.input@, self.pos as int) == self.pos as int);
                        break;
                    }
                }
                _ => {
                    assert(blanks_end(self.input@, self.pos as int) == self.pos as int);
                    break;
                }
            }
        }
    }

    /// Skips a comment (from `#` to end of line).
    pub fn skip_comment(&mut self)
        requires
            old(self).wf(),
        ensures
            same_source(*old(self), *final(self)),
            final(self).pos >= old(self).pos,
            final(self).pos == line_end(old(self).input@, old(self).pos as int),
            *final(self) == (Lexer { pos: final(self).pos, line: final(self).line, ..*old(self) }),
    {
        loop
            invariant
                same_source(*old(self), *self),
                self.pos >= old(self).pos,
                line_end(self.input@, self.pos as int) == line_end(old(self).input@, old(self).pos as int),
                *self == (Lexer { pos: self.pos, line: self.line, ..*old(self) }),
            ensures
                same_source(*old(self), *self),
                self.pos >= old(self).pos,
                *self == (Lexer { pos: self.pos, line: self.line, ..*old(self) }),
                self.pos == line_end(old(self).input@, old(self).pos as int),
            decreases self.input@.len() - self.pos,
        {
            match self.peek_char() {
                Some(c) => {
                    if c == '\n' {
                        assert(line_end(self.input@, self.pos as int) == self.pos as int);
                        break;
                    }
                    self.advance_char();
                }
                None => {
                    assert(line_end(self.input@, self.pos as int) == self.pos as int);
                    break;
                }
            }
        }
    }
}

} // verus!

verus! {

/// Number of characters of a string.
pub fn char_len(s: &String) -> (r: usize)
    ensures
        r == s@.len(),
{
    crate::text::chars_of(s.as_str()).len()
}

impl Lexer {
    /// Returns the next token, consuming it. A token already read ahead by
    /// `peek_token` is the one returned, and nothing more is read.
    pub fn next_token(&mut self) -> (r: Result<Token>)
        requires
            old(self).wf(),
        ensures
            same_source(*old(self), *final(self)),
            r is Ok ==> final(self).peeked is None,
            old(self).fuel.budget > 0 && old(self).peeked is Some ==> r == Ok::<Token, RableError>(old(self).peeked->0),
            old(self).fuel.budget > 0 && old(self).peeked is Some ==> final(self).pos == old(self).pos
                && final(self).fuel.budget == old(self).fuel.budget - 1,
            old(self).fuel.budget == 0 ==> r is Err,
            old(self).fuel.budget > 0 && old(self).peeked is Some ==> final(self).line == old(self).line,
            old(self).peeked is None && plain_word_next(*old(self), 4) ==> plain_word_read(*old(self), *final(self), r),
            r is Ok && old(self).peeked is None ==> word_builder::spans_within(r->Ok_0.spans@, r->Ok_0.value@.len()),
            stream::plain_ahead(*old(self)) && stream::fuel_for_rest(*old(self), 9) ==> r is Ok && final(self).peeked is None
                && stream::plain_ahead(*final(self)) && stream::spent(*old(self), *final(self), 9)
                && (stream::plain_rest(*old(self)).len() == 0 ==> r->Ok_0.kind == TokenType::Eof
                    && stream::plain_rest(*final(self)).len() == 0)
                && r->Ok_0.spans@.len() == 0
                && (stream::plain_rest(*old(self)).len() > 0 ==> stream::is_plain_token(r->Ok_0)
                    && stream::plain_tok_of(r->Ok_0) == stream::plain_rest(*old(self))[0]
                    && stream::plain_rest(*final(self)) == stream::plain_rest(*old(self)).drop_first()),
        decreases old(self).fuel.budget,
    {
        proof {
            let q = blanks_end(old(self).input@, old(self).pos as int);
            if words::plain_word_at(old(self).input@, q) {
                words::lemma_plain_run_end_bounds(old(self).input@, q);
            }
        }
        self.tick()?;
        let tok = match self.peeked.take() {
            Some(t) => t,
            None => {
                let t = self.read_token()?;
                self.peeked = None;
                t
            }
        };
        self.last_token_end = tok.pos.saturating_add(char_len(&tok.value));
        Ok(tok)
    }

    /// Peeks at the next token without consuming it: the token stays read
    /// ahead, and a token already read ahead is returned again.
    pub fn peek_token(&mut self) -> (r: Result<&Token>)
        requires
            old(self).wf(),
        ensures
            same_source(*old(self), *final(self)),
            r is Ok && old(self).peeked is Some ==> final(self).peeked == old(self).peeked && final(self).pos == old(self).pos,
            r is Ok ==> final(self).peeked is Some,
            r is Ok ==> final(self).peeked == Some(*r->Ok_0),
            old(self).fuel.budget > 1 && old(self).peeked is Some ==> r is Ok && *r->Ok_0 == old(self).peeked->0,
            old(self).fuel.budget > 1 && old(self).peeked is Some ==> final(self).pos == old(self).pos
                && final(self).fuel.budget == old(self).fuel.budget - 2,
            old(self).fuel.budget == 0 ==> r is Err,
            old(self).peeked is Some ==> *final(self) == (Lexer { fuel: final(self).fuel, ..*old(self) }),
            old(self).peeked is None && plain_word_next(*old(self), 5) ==> r is Ok && plain_word_token(*old(self), *r->Ok_0)
                && final(self).pos == plain_word_end(*old(self)),
            old(self).peeked is None && blank_rest(*old(self)) && old(self).fuel.budget >= 3 ==> r is Ok
                && eof_peeked(*final(self)) && blank_rest(*final(self)) && final(self).fuel.budget + 3 >= old(self).fuel.budget,
            r is Ok && old(self).peeked is None ==> word_builder::spans_within(r->Ok_0.spans@, r->Ok_0.value@.len()),
            stream::plain_ahead(*old(self)) && stream::fuel_for_rest(*old(self), 10) ==> r is Ok
                && final(self).peeked == Some(*r->Ok_0) && stream::plain_ahead(*final(self))
                && stream::plain_rest(*final(self)) == stream::plain_rest(*old(self)) && stream::spent(*old(self), *final(self), 10),
            stream::plain_ahead(*old(self)) && stream::fuel_for_rest(*old(self), 10) && old(self).peeked is None
                && stream::plain_rest(*old(self)).len() > 0 ==> final(self).pos > old(self).pos,
        decreases old(self).fuel.budget,
    {
        proof {
            let q = blanks_end(old(self).input@, old(self).pos as int);
            if words::plain_word_at(old(self).input@, q) {
                words::lemma_plain_run_end_bounds(old(self).input@, q);
            }
        }
        self.tick()?;
        self.fill_peek()?;
        match &self.peeked {
            Some(t) => Ok(t),
            None => Err(RableError::parse("unexpected end of input", self.pos, self.line)),
        }
    }

    /// Makes sure a token has been read ahead; one already read ahead stays.
    pub fn fill_peek(&mut self) -> (r: Result<()>)
        requires
            old(self).wf(),
        ensures
            same_source(*old(self), *final(self)),
            r is Ok && old(self).peeked is Some ==> final(self).peeked == old(self).peeked && final(self).pos == old(self).pos,
            r is Ok ==> final(self).peeked is Some,
            old(self).fuel.budget > 0 && old(self).peeked is Some ==> r is Ok && final(self).peeked == old(self).peeked
                && final(self).pos == old(self).pos && final(self).fuel.budget == old(self).fuel.budget - 1,
            old(self).fuel.budget == 0 ==> r is Err,
            old(self).peeked is Some ==> *final(self) == (Lexer { fuel: final(self).fuel, ..*old(self) }),
            old(self).peeked is None && plain_word_next(*old(self), 4) ==> r is Ok && final(self).peeked is Some
                && plain_word_token(*old(self), final(self).peeked->0) && final(self).pos == plain_word_end(*old(self)),
            old(self).peeked is None && blank_rest(*old(self)) && old(self).fuel.budget >= 2 ==> r is Ok
                && eof_peeked(*final(self)) && blank_rest(*final(self)) && final(self).fuel.budget + 2 >= old(self).fuel.budget,
            r is Ok && old(self).peeked is None ==> word_builder::spans_within(final(self).peeked->0.spans@,
                final(self).peeked->0.value@.len()),
            stream::plain_ahead(*old(self)) && stream::fuel_for_rest(*old(self), 9) ==> r is Ok && final(self).peeked is Some
                && stream::plain_ahead(*final(self)) && stream::plain_rest(*final(self)) == stream::plain_rest(*old(self))
                && stream::spent(*old(self), *final(self), 9),
            stream::plain_ahead(*old(self)) && stream::fuel_for_rest(*old(self), 9) && old(self).peeked is None
                && stream::plain_rest(*old(self)).len() > 0 ==> final(self).pos > old(self).pos,
        decreases old(self).fuel.budget,
    {
        proof {
            let q = blanks_end(old(self).input@, old(self).pos as int);
            if words::plain_word_at(old(self).input@, q) {
                words::lemma_plain_run_end_bounds(old(self).input@, q);
            }
        }
        self.tick()?;
        if self.peeked.is_none() {
            let tok = self.read_token()?;
            self.peeked = Some(tok);
        }
        Ok(())
    }

    /// Core tokenization: reads the next token from input.
    pub fn read_token(&mut self) -> (r: Result<Token>)
        requires
            old(self).wf(),
        ensures
            same_source(*old(self), *final(self)),
            r is Ok ==> word_builder::spans_within(r->Ok_0.spans@, r->Ok_0.value@.len()),
            plain_word_next(*old(self), 3) ==> plain_word_read(*old(self), *final(self), r),
            blank_rest(*old(self)) && old(self).fuel.budget >= 1 ==> (r is Ok && r->Ok_0.kind == TokenType::Eof
                && final(self).peeked == old(self).peeked && blank_rest(*final(self))
                && final(self).fuel.budget + 1 >= old(self).fuel.budget),
            stream::plain_next(*old(self), 8) ==> (r is Ok && stream::read_plain(*old(self), *final(self), r->Ok_0,
                stream::plain_tokens(old(self).input@, old(self).pos as int)->0)),
        decreases old(self).fuel.budget,
    {
        proof {
            let q = blanks_end(old(self).input@, old(self).pos as int);
            if words::plain_word_at(old(self).input@, q) {
                words::lemma_plain_run_end_bounds(old(self).input@, q);
            }
        }
        self.tick()?;
        self.skip_blanks();
        if self.at_backtick_terminator() {
            return Ok(Token::eof(self.pos, self.line));
        }
        if self.peek_char() == Some('#') {
            self.skip_comment();
            self.skip_blanks();
        }
        if self.at_end() {
            return Ok(Token::eof(self.pos, self.line));
        }
        let start = self.pos;
        let line = self.line;
        let ch = match self.peek_char() {
            Some(c) => c,
            None => {
                return Err(RableError::parse("unexpected end of input", self.pos, self.line));
            }
        };
        proof {
            let s0 = old(self).input@;
            let q = self.pos as int;
            if stream::plain_next(*old(self), 8) && q < s0.len() {
                let n = if s0[q] == ';' || s0[q] == '|' || s0[q] == '\n' { q + 1 } else { words::plain_run_end(s0, q) };
                if stream::plain_tokens(s0, n) is Some {
                    let rest = stream::plain_tokens(s0, n)->0;
                    assert forall|t: stream::PlainTok| #[trigger] (seq![t] + rest).drop_first() == rest by {
                        assert((seq![t] + rest).drop_first() =~= rest);
                    }
                }
            }
        }
        match ch {
            '\n' => {
                self.advance_char();
                self.ctx.command_start = true;
                self.ctx.reserved_words_ok = true;
                if self.pending_heredocs.len() > 0 {
                    self.read_pending_heredocs();
                }
                Ok(Token::new(TokenType::Newline, "\n", start, line))
            }
            '|' => Ok(self.read_pipe_operator(start, line)),
            '&' => Ok(self.read_ampersand_operator(start, line)),
            ';' => Ok(self.read_semicolon_operator(start, line)),
            '(' => {
                self.advance_char();
                Ok(Token::new(TokenType::LeftParen, "(", start, line))
            }
            ')' => {
                self.advance_char();
                Ok(Token::new(TokenType::RightParen, ")", start, line))
            }
            '<' => {
                if self.peek_at(1) == Some('(') {
                    self.read_process_sub_word(start, line)
                } else {
                    Ok(self.read_less_operator(start, line))
                }
            }
            '>' => {
                if self.peek_at(1) == Some('(') {
                    self.read_process_sub_word(start, line)
                } else {
                    Ok(self.read_greater_operator(start, line))
                }
            }
            _ => self.read_word_token(start, line),
        }
    }

    /// Reads raw text until `))` for arithmetic commands and C-style `for`.
    /// Backslash-newline is dropped; other escapes are kept as written.
    pub fn read_until_double_paren(&mut self) -> (r: Result<String>)
        requires
            old(self).wf(),
        ensures
            same_source(*old(self), *final(self)),
            final(self).peeked is None,
            r is Ok <==> until_double_paren(old(self).input@, old(self).pos as int, 0) is Some,
            r matches Ok(t) ==> until_double_paren(old(self).input@, old(self).pos as int, 0)
                == Some((final(self).pos as int, t@)),
            r matches Err(e) ==> e is MatchedPair && e.spec_pos() == final(self).pos && final(self).pos == final(self).input@.len()
                && e.spec_line() == final(self).line,
            old(self).pos <= final(self).pos,
            final(self).line == line_after(old(self).line as nat, old(self).input@.subrange(old(self).pos as int, final(self).pos as int)),
    {
        self.peeked = None;
        let mut result = String::new();
        let mut depth: i64 = 0;
        loop
            invariant
                same_source(*old(self), *self),
                0 <= depth,
                self.peeked is None,
                old(self).pos <= self.pos,
                self.line == line_after(old(self).line as nat, old(self).input@.subrange(old(self).pos as int, self.pos as int)),
                until_double_paren(old(self).input@, old(self).pos as int, 0)
                    == prefixed(result@, until_double_paren(self.input@, self.pos as int, depth as int)),
            decreases self.input@.len() - self.pos,
        {
            let ghost r0 = result@;
            let ghost p = self.pos as int;
            let ghost s0 = self.input@;
            match self.peek_char() {
                Some(')') => {
                    if depth == 0 {
                        { let ghost q0 = self.pos as int; self.advance_char(); proof { lemma_line_after_split(old(self).line as nat, old(self).input@, old(self).pos as int, q0, self.pos as int); } }
                        if self.peek_char() == Some(')') {
                            { let ghost q0 = self.pos as int; self.advance_char(); proof { lemma_line_after_split(old(self).line as nat, old(self).input@, old(self).pos as int, q0, self.pos as int); } }
                            assert(result@ + Seq::<char>::empty() =~= result@);
                            return Ok(result);
                        }
                        push_char(&mut result, ')');
                        assert(result@ =~= r0 + seq![')']);
                        proof { lemma_prefixed_twice(r0, seq![')'], until_double_paren(s0, p + 1, 0)); }
                    } else {
                        { let ghost q0 = self.pos as int; self.advance_char(); proof { lemma_line_after_split(old(self).line as nat, old(self).input@, old(self).pos as int, q0, self.pos as int); } }
                        depth = depth - 1;
                        push_char(&mut result, ')');
                        assert(result@ =~= r0 + seq![')']);
                        proof { lemma_prefixed_twice(r0, seq![')'], until_double_paren(s0, p + 1, depth as int)); }
                    }
                }
                Some('(') => {
                    { let ghost q0 = self.pos as int; self.advance_char(); proof { lemma_line_after_split(old(self).line as nat, old(self).input@, old(self).pos as int, q0, self.pos as int); } }
                    if depth < i64::MAX {
                        depth = depth + 1;
                    }
                    push_char(&mut result, '(');
                    assert(result@ =~= r0 + seq!['(']);
                    proof { lemma_prefixed_twice(r0, seq!['('], until_double_paren(s0, p + 1, depth as int)); }
                }
                Some('\\') => {
                    { let ghost q0 = self.pos as int; self.advance_char(); proof { lemma_line_after_split(old(self).line as nat, old(self).input@, old(self).pos as int, q0, self.pos as int); } }
                    if self.peek_char() == Some('\n') {
                        { let ghost q0 = self.pos as int; self.advance_char(); proof { lemma_line_after_split(old(self).line as nat, old(self).input@, old(self).pos as int, q0, self.pos as int); } }
                    } else {
                        push_char(&mut result, '\\');
                        let ghost q1 = self.pos as int;
                        let adv = self.advance_char();
                        proof { lemma_line_after_split(old(self).line as nat, old(self).input@, old(self).pos as int, q1, self.pos as int); }
                        match adv {
                            Some(c) => {
                                push_char(&mut result, c);
                                assert(result@ =~= r0 + seq!['\\', c]);
                                proof { lemma_prefixed_twice(r0, seq!['\\', c], until_double_paren(s0, p + 2, depth as int)); }
                            }
                            None => {},
                        }
                    }
                }
                Some(c) => {
                    { let ghost q0 = self.pos as int; self.advance_char(); proof { lemma_line_after_split(old(self).line as nat, old(self).input@, old(self).pos as int, q0, self.pos as int); } }
                    push_char(&mut result, c);
                    assert(result@ =~= r0 + seq![c]);
                    proof { lemma_prefixed_twice(r0, seq![c], until_double_paren(s0, p + 1, depth as int)); }
                }
                None => {
                    return Err(RableError::matched_pair("unterminated ((", self.pos, self.line));
                }
            }
        }
    }
}

} // verus!
