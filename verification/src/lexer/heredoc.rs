//! Here-documents: delimiter normalisation and body reading.
use vstd::prelude::*;
use crate::text::{chars_eq, is_whitespace, push_char, string_from_chars};
use super::{same_source, Lexer, LexerMode};

verus! {

/// A quoting character that marks a here-document delimiter as quoted.
pub open spec fn is_delim_quote(c: char) -> bool {
    c == '\'' || c == '"' || c == '\\'
}

/// Normalises a here-document delimiter word, removing `'...'`, `"..."`
/// and `\x` quoting. Returns the delimiter and whether any quoting was
/// present (which turns off expansion in the body).
pub fn parse_heredoc_delimiter(raw: &[char]) -> (r: (Vec<char>, bool))
    ensures
        r.1 <==> exists|i: int| 0 <= i < raw@.len() && is_delim_quote(#[trigger] raw@[i]),
        !r.1 ==> r.0@ == raw@,
        r.0@.len() <= raw@.len(),
{
    let mut result: Vec<char> = Vec::new();
    let mut quoted = false;
    let mut i: usize = 0;
    while i < raw.len()
        invariant
            i <= raw@.len(),
            result@.len() <= i,
            quoted <==> exists|j: int| 0 <= j < i && is_delim_quote(#[trigger] raw@[j]),
            !quoted ==> result@ == raw@.subrange(0, i as int),
        decreases raw.len() - i,
    {
        let c = raw[i];
        if c == '\'' || c == '"' {
            quoted = true;
            let close = c;
            i = i + 1;
            let ghost i0 = i;
            while i < raw.len() && raw[i] != close
                invariant
                    i0 <= i <= raw@.len(),
                    result@.len() <= i,
                    quoted,
                    exists|j: int| 0 <= j < i && is_delim_quote(#[trigger] raw@[j]),
                decreases raw.len() - i,
            {
                result.push(raw[i]);
                i = i + 1;
            }
            if i < raw.len() {
                i = i + 1;
            }
        } else if c == '\\' {
            quoted = true;
            i = i + 1;
            if i < raw.len() {
                result.push(raw[i]);
                i = i + 1;
            }
        } else {
            result.push(c);
            assert(raw@.subrange(0, i + 1) =~= raw@.subrange(0, i as int).push(c));
            i = i + 1;
        }
    }
    assert(raw@.subrange(0, raw@.len() as int) =~= raw@);
    (result, quoted)
}

/// A here-document waiting for its body after the next newline.
#[derive(Debug, Clone)]
pub struct PendingHereDoc {
    pub delimiter: Vec<char>,
    pub strip_tabs: bool,
    pub quoted: bool,
}

/// One heredoc body line (continuations joined, newline excluded).
pub struct ReadLine {
    pub line: Vec<char>,
    pub eof_after_backslash: bool,
    /// The line ended at the end of input rather than at a newline.
    pub terminated_at_eof: bool,
}

/// The characters of `s` after its leading tabs.
pub fn trim_leading_tabs(s: &[char]) -> (r: Vec<char>)
    ensures
        r@.len() <= s@.len(),
        r@ == s@.subrange(tabs_end(s@, 0), s@.len() as int),
{
    let k = count_leading_tabs(s);
    let mut r: Vec<char> = Vec::new();
    let mut i = k;
    while i < s.len()
        invariant
            k <= i <= s@.len(),
            r@ == s@.subrange(k as int, i as int),
        decreases s.len() - i,
    {
        r.push(s[i]);
        i = i + 1;
    }
    r
}

/// The end of the run of tabs starting at `i`.
pub open spec fn tabs_end(s: Seq<char>, i: int) -> int
    decreases s.len() - i,
{
    if 0 <= i < s.len() && s[i] == '\t' { tabs_end(s, i + 1) } else { i }
}

/// `line` is `delim` (after `lt` leading characters) followed by blanks
/// and at least one `)`, and nothing else.
pub open spec fn sloppy_delimiter_line(line: Seq<char>, delim: Seq<char>, lt: int) -> bool {
    let t = lt + delim.len();
    &&& 0 <= lt
    &&& t < line.len()
    &&& line.subrange(lt, t) == delim
    &&& forall|j: int| t <= j < line.len() ==> (#[trigger] line[j] == ')' || line[j] == ' ' || line[j] == '\t')
    &&& exists|j: int| t <= j < line.len() && #[trigger] line[j] == ')'
}

/// Number of leading tab characters of `s`.
pub fn count_leading_tabs(s: &[char]) -> (k: usize)
    ensures
        k <= s@.len(),
        forall|j: int| 0 <= j < k ==> s@[j] == '\t',
        k < s@.len() ==> s@[k as int] != '\t',
        k == tabs_end(s@, 0),
{
    let mut k: usize = 0;
    while k < s.len() && s[k] == '\t'
        invariant
            k <= s@.len(),
            forall|j: int| 0 <= j < k ==> s@[j] == '\t',
            tabs_end(s@, k as int) == tabs_end(s@, 0),
        decreases s.len() - k,
    {
        k = k + 1;
    }
    k
}

/// The characters of `s` without trailing whitespace.
pub fn trim_end(s: &[char]) -> (r: Vec<char>)
    ensures
        r@.len() <= s@.len(),
{
    let mut k = s.len();
    while k > 0 && crate::text::whitespace(s[k - 1])
        invariant
            k <= s@.len(),
            forall|j: int| k <= j < s@.len() ==> is_whitespace(s@[j]),
        decreases k,
    {
        k = k - 1;
    }
    let mut r: Vec<char> = Vec::new();
    let mut i: usize = 0;
    while i < k
        invariant
            i <= k <= s@.len(),
            r@ == s@.subrange(0, i as int),
        decreases k - i,
    {
        r.push(s[i]);
        i = i + 1;
    }
    r
}

impl Lexer {
    /// Queues a here-document to be read after the next newline.
    pub fn queue_heredoc(&mut self, delimiter: Vec<char>, strip_tabs: bool, quoted: bool)
        ensures
            final(self).pending_heredocs@ == old(self).pending_heredocs@.push(
                PendingHereDoc { delimiter, strip_tabs, quoted },
            ),
            final(self).pos == old(self).pos,
            final(self).input == old(self).input,
            final(self).fuel == old(self).fuel,
            final(self).extglob == old(self).extglob,
            final(self).mode == old(self).mode,
    {
        self.pending_heredocs.push(PendingHereDoc { delimiter, strip_tabs, quoted });
    }

    /// Reads all pending here-document bodies (after a newline).
    pub fn read_pending_heredocs(&mut self)
        requires
            old(self).wf(),
        ensures
            same_source(*old(self), *final(self)),
            final(self).fuel == old(self).fuel,
            final(self).pending_heredocs@.len() == 0,
    {
        let mut pending: Vec<PendingHereDoc> = Vec::new();
        std::mem::swap(&mut pending, &mut self.pending_heredocs);
        let mut i: usize = 0;
        while i < pending.len()
            invariant
                same_source(*old(self), *self),
                self.fuel == old(self).fuel,
                self.pending_heredocs@.len() == 0,
            decreases pending.len() - i,
        {
            let hd = &pending[i];
            let content = self.read_heredoc_body(hd.delimiter.as_slice(), hd.strip_tabs);
            self.heredoc_contents.push(content);
            i = i + 1;
        }
    }

    /// Reads a here-document body up to its delimiter line. Inside a
    /// `$(...)` fork a line `DELIM` followed by blanks and at least one `)`
    /// also ends the body, and the `)` part is left in the input.
    pub fn read_heredoc_body(&mut self, delimiter: &[char], strip_tabs: bool) -> (r: String)
        requires
            old(self).wf(),
        ensures
            same_source(*old(self), *final(self)),
            final(self).fuel == old(self).fuel,
            final(self).pending_heredocs == old(self).pending_heredocs,
    {
        let cmdsub_mode = self.mode == LexerMode::Cmdsub;
        let mut content = String::new();
        loop
            invariant
                same_source(*old(self), *self),
                self.fuel == old(self).fuel,
                self.pending_heredocs == old(self).pending_heredocs,
            decreases self.input@.len() - self.pos,
        {
            if self.at_end() {
                break;
            }
            let rl = self.read_heredoc_line();
            let check_line = if strip_tabs {
                trim_leading_tabs(rl.line.as_slice())
            } else {
                rl.line.clone()
            };
            let mut matched = chars_eq(check_line.as_slice(), delimiter)
                || chars_eq(trim_end(check_line.as_slice()).as_slice(), delimiter);
            if !matched && cmdsub_mode {
                matched = self.try_match_sloppy_delimiter(
                    rl.line.as_slice(),
                    delimiter,
                    strip_tabs,
                    rl.terminated_at_eof,
                );
            }
            if matched {
                break;
            }
            let body = string_from_chars(check_line.as_slice());
            content.append(body.as_str());
            if !rl.eof_after_backslash {
                push_char(&mut content, '\n');
            }
        }
        content
    }

    /// Reads one logical line of heredoc input.
    pub fn read_heredoc_line(&mut self) -> (r: ReadLine)
        requires
            old(self).wf(),
            old(self).pos < old(self).input@.len(),
        ensures
            same_source(*old(self), *final(self)),
            final(self).fuel == old(self).fuel,
            final(self).pending_heredocs == old(self).pending_heredocs,
            final(self).pos > old(self).pos,
    {
        let mut line: Vec<char> = Vec::new();
        let mut prev_backslash = false;
        let mut eof_after_backslash = false;
        let mut terminated_at_eof = true;
        let start = self.pos;
        loop
            invariant
                same_source(*old(self), *self),
                self.fuel == old(self).fuel,
                self.pending_heredocs == old(self).pending_heredocs,
                self.pos >= start,
                start == old(self).pos,
                start < self.input@.len(),
                self.pos == start ==> self.pos < self.input@.len(),
            ensures
                self.pos > start,
            decreases self.input@.len() - self.pos,
        {
            let c = match self.peek_char() {
                Some(c) => c,
                None => {
                    assert(self.pos >= self.input@.len());
                    break;
                }
            };
            self.advance_char();
            assert(self.pos > start);
            if c == '\n' {
                terminated_at_eof = false;
                break;
            }
            if c == '\\' && !prev_backslash && self.peek_char() == Some('\n') {
                self.advance_char();
                prev_backslash = false;
                continue;
            }
            if c == '\\' && !prev_backslash && self.peek_char().is_none() {
                line.push('\\');
                line.push('\\');
                prev_backslash = false;
                eof_after_backslash = true;
            } else {
                prev_backslash = c == '\\' && !prev_backslash;
                line.push(c);
            }
        }
        ReadLine { line, eof_after_backslash, terminated_at_eof }
    }

    /// Recognises `DELIM` followed by blanks and `)` as a delimiter line
    /// inside a `$(...)` fork, leaving the tail in the input.
    pub fn try_match_sloppy_delimiter(
        &mut self,
        line: &[char],
        delimiter: &[char],
        strip_tabs: bool,
        terminated_at_eof: bool,
    ) -> (r: bool)
        requires
            old(self).wf(),
        ensures
            same_source(*old(self), *final(self)),
            final(self).fuel == old(self).fuel,
            final(self).pending_heredocs == old(self).pending_heredocs,
            !r ==> final(self).pos == old(self).pos,
            r == sloppy_delimiter_line(line@, delimiter@, if strip_tabs { tabs_end(line@, 0) } else { 0 }),
            r ==> final(self).pos == ({
                let rewind = (if terminated_at_eof { line@.len() as int } else if line@.len() < usize::MAX { line@.len() as int + 1 } else { line@.len() as int })
                    - ((if strip_tabs { tabs_end(line@, 0) } else { 0 }) + delimiter@.len());
                if old(self).pos >= rewind { old(self).pos - rewind } else { 0 }
            }),
    {
        let leading_tabs = if strip_tabs { count_leading_tabs(line) } else { 0 };
        let ghost lt = leading_tabs as int;
        let n = line.len();
        let d = delimiter.len();
        if d > n || leading_tabs > n - d {
            return false;
        }
        let mut i: usize = 0;
        while i < d
            invariant
                i <= d,
                leading_tabs + d <= n,
                n == line@.len(),
                d == delimiter@.len(),
                *self == *old(self),
                self.wf(),
                lt == leading_tabs as int,
                lt == (if strip_tabs { tabs_end(line@, 0) } else { 0 }),
                forall|k: int| 0 <= k < i ==> line@[lt + k] == delimiter@[k],
            decreases d - i,
        {
            if line[leading_tabs + i] != delimiter[i] {
                proof {
                    assert(line@.subrange(lt, lt + d)[i as int] != delimiter@[i as int]);
                }
                return false;
            }
            i = i + 1;
        }
        let tail_start = leading_tabs + d;
        assert(line@.subrange(lt, tail_start as int) =~= delimiter@);
        if tail_start == n {
            return false;
        }
        let mut has_close = false;
        let mut j = tail_start;
        while j < n
            invariant
                tail_start <= j <= n,
                n == line@.len(),
                *self == *old(self),
                self.wf(),
                forall|k: int| tail_start <= k < j ==> (#[trigger] line@[k] == ')' || line@[k] == ' ' || line@[k] == '\t'),
                has_close ==> exists|k: int| tail_start <= k < j && #[trigger] line@[k] == ')',
                tail_start == lt + d,
                d == delimiter@.len(),
                lt == (if strip_tabs { tabs_end(line@, 0) } else { 0 }),
                line@.subrange(lt, tail_start as int) == delimiter@,
                !has_close ==> forall|k: int| tail_start <= k < j ==> #[trigger] line@[k] != ')',
            decreases n - j,
        {
            let c = line[j];
            if c == ')' {
                has_close = true;
            } else if c != ' ' && c != '\t' {
                assert(!(line@[j as int] == ')' || line@[j as int] == ' ' || line@[j as int] == '\t'));
                return false;
            }
            j = j + 1;
        }
        if !has_close {
            return false;
        }
        let consumed: usize = if terminated_at_eof { n } else { n.saturating_add(1) };
        let retain = tail_start;
        let rewind = consumed.saturating_sub(retain);
        self.pos = self.pos.saturating_sub(rewind);
        if !terminated_at_eof {
            self.line = self.line.saturating_sub(1);
        }
        true
    }

    /// Takes the next completed here-document body, if any.
    pub fn take_heredoc_content(&mut self) -> (r: Option<String>)
        ensures
            old(self).heredoc_contents@.len() == 0 ==> r is None && *final(self) == *old(self),
            old(self).heredoc_contents@.len() > 0 ==> r == Some(old(self).heredoc_contents@[0])
                && final(self).heredoc_contents@ == old(self).heredoc_contents@.drop_first(),
            final(self).pos == old(self).pos,
            final(self).input == old(self).input,
            final(self).fuel == old(self).fuel,
            final(self).extglob == old(self).extglob,
            final(self).mode == old(self).mode,
    {
        if self.heredoc_contents.len() == 0 {
            None
        } else {
            Some(self.heredoc_contents.remove(0))
        }
    }
}

} // verus!
