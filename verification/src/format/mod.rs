//! Canonical bash layout of command substitution bodies: the body is
//! parsed again and written back in bash's own indented form.
use vstd::prelude::*;
use crate::ast::{ListOperator, Node};
use crate::lexer::{Fuel, Lexer, LexerMode};
use crate::parser::Parser;
use crate::parser::plain::{pipe_line, pipeline_of};
use crate::lexer::stream::plain_tokens;
use self::layout::fmt_text;
use crate::text::{copy_chars, push_str, skip_blanks_backward, string_from_chars, trim_blanks_end};

pub mod compound;
pub mod layout;
pub mod nodes;

verus! {

/// The longest body that is reformatted.
pub const MAX_REFORMAT_LEN: usize = 1000;

/// Output buffer and current indentation of the reformatter.
pub struct Formatter {
    out: Vec<char>,
    indent: usize,
}

impl Formatter {
    /// The text written so far.
    pub closed spec fn text(&self) -> Seq<char> {
        self.out@
    }

    /// The current indentation.
    pub closed spec fn indentation(&self) -> nat {
        self.indent as nat
    }

    /// An empty formatter at indentation zero.
    pub fn new() -> (r: Self)
        ensures
            r.text() == Seq::<char>::empty(),
            r.indentation() == 0,
    {
        Formatter { out: Vec::new(), indent: 0 }
    }

    /// The output with trailing spaces and tabs removed; trailing newlines
    /// stay, since heredoc bodies end with one.
    pub fn finish(self) -> (r: String)
        ensures
            r@ == trim_blanks_end(self.text()),
    {
        let n = self.out.len();
        let e = skip_blanks_backward(self.out.as_slice(), n);
        assert(self.out@.subrange(0, n as int) =~= self.out@);
        match crate::text::slice_chars(self.out.as_slice(), 0, e) {
            Some(v) => string_from_chars(v.as_slice()),
            None => String::new(),
        }
    }

    /// Appends a string.
    pub fn write_str(&mut self, s: &str)
        ensures
            final(self).text() == old(self).text() + s@,
            final(self).indentation() == old(self).indentation(),
    {
        push_str(&mut self.out, s);
    }

    /// Appends the characters of a string.
    pub fn write_string(&mut self, s: &String)
        ensures
            final(self).text() == old(self).text() + s@,
            final(self).indentation() == old(self).indentation(),
    {
        crate::text::push_string(&mut self.out, s);
    }

    /// Appends characters.
    pub fn write_chars(&mut self, s: &[char])
        ensures
            final(self).text() == old(self).text() + s@,
            final(self).indentation() == old(self).indentation(),
    {
        crate::text::extend_chars(&mut self.out, s);
    }

    /// Appends one character.
    pub fn write_char(&mut self, c: char)
        ensures
            final(self).text() == old(self).text().push(c),
            final(self).indentation() == old(self).indentation(),
    {
        self.out.push(c);
    }

    /// Appends `n` spaces.
    pub fn write_indent(&mut self, n: usize)
        ensures
            final(self).text() == old(self).text() + layout::spaces(n as nat),
            final(self).indentation() == old(self).indentation(),
    {
        let mut i: usize = 0;
        while i < n
            invariant
                i <= n,
                self.out@ == old(self).out@ + Seq::new(i as nat, |k: int| ' '),
                self.indent == old(self).indent,
            decreases n - i,
        {
            self.out.push(' ');
            i = i + 1;
            assert(self.out@ =~= old(self).out@ + Seq::new(i as nat, |k: int| ' '));
        }
    }

    /// Appends as many spaces as the current indentation.
    pub fn indent_here(&mut self)
        ensures
            final(self).text() == old(self).text() + layout::spaces(old(self).indentation()),
            final(self).indentation() == old(self).indentation(),
    {
        let n = self.indent;
        self.write_indent(n);
    }

    /// Appends as many spaces as the current indentation plus `delta`.
    pub fn indent_by(&mut self, delta: usize)
        ensures
            final(self).text() == old(self).text() + layout::spaces(layout::sat_add(old(self).indentation(), delta as nat)),
            final(self).indentation() == old(self).indentation(),
    {
        let n = self.indent.saturating_add(delta);
        self.write_indent(n);
    }

    /// Runs `f` with the indentation raised by `delta` (saturating), then
    /// puts the indentation back.
    pub fn with_indent<F: FnOnce(Formatter) -> Formatter>(self, delta: usize, f: F) -> (r: Formatter)
        requires
            forall|g: Formatter| f.requires((g,)),
        ensures
            r.indentation() == self.indentation(),
    {
        let saved = self.indent;
        let mut inner = self;
        inner.indent = saved.saturating_add(delta);
        let mut done = f(inner);
        done.indent = saved;
        done
    }

    /// Raises the indentation by `delta` (saturating) and returns what it was.
    pub fn push_indent(&mut self, delta: usize) -> (saved: usize)
        ensures
            saved == old(self).indentation(),
            final(self).indentation() == layout::sat_add(old(self).indentation(), delta as nat),
            final(self).text() == old(self).text(),
    {
        let saved = self.indent;
        self.indent = saved.saturating_add(delta);
        saved
    }

    /// Puts back an indentation saved by `push_indent`.
    pub fn pop_indent(&mut self, saved: usize)
        ensures
            final(self).indentation() == saved,
            final(self).text() == old(self).text(),
    {
        self.indent = saved;
    }

    /// The text written so far.
    pub fn out(&self) -> (r: &Vec<char>)
        ensures
            r@ == self.text(),
    {
        &self.out
    }

    /// Inserts `s` at position `pos` of the output.
    pub fn insert_at(&mut self, pos: usize, s: &[char])
        requires
            pos <= old(self).text().len(),
        ensures
            final(self).text() == old(self).text().subrange(0, pos as int) + s@
                + old(self).text().subrange(pos as int, old(self).text().len() as int),
            final(self).indentation() == old(self).indentation(),
    {
        let mut v: Vec<char> = Vec::new();
        let mut i: usize = 0;
        while i < pos
            invariant
                i <= pos <= self.out@.len(),
                self.out@ == old(self).out@,
                v@ == self.out@.subrange(0, i as int),
            decreases pos - i,
        {
            v.push(self.out[i]);
            i = i + 1;
        }
        crate::text::extend_chars(&mut v, s);
        let n = self.out.len();
        let mut j = pos;
        while j < n
            invariant
                pos <= j <= n == self.out@.len(),
                self.out@ == old(self).out@,
                v@ == self.out@.subrange(0, pos as int) + s@ + self.out@.subrange(pos as int, j as int),
            decreases n - j,
        {
            v.push(self.out[j]);
            j = j + 1;
            assert(v@ =~= self.out@.subrange(0, pos as int) + s@ + self.out@.subrange(pos as int, j as int));
        }
        self.out = v;
    }
}

/// Only these characters: Unicode letters and digits, space, `_`, `-`,
/// `.`, `/`. Such a body is plain words and is not reformatted.
pub open spec fn plain_words(s: Seq<char>) -> bool {
    forall|i: int| 0 <= i < s.len() ==> {
        let c = #[trigger] s[i];
        crate::text::alphanumeric_spec(c) || c == ' ' || c == '_' || c == '-' || c == '.' || c == '/'
    }
}

/// Computes `plain_words`.
pub fn is_plain_words(s: &[char]) -> (r: bool)
    ensures
        r == plain_words(s@),
{
    let mut i: usize = 0;
    while i < s.len()
        invariant
            i <= s@.len(),
            forall|k: int| 0 <= k < i ==> {
                let c = #[trigger] s@[k];
                crate::text::alphanumeric_spec(c) || c == ' ' || c == '_' || c == '-' || c == '.' || c == '/'
            },
        decreases s.len() - i,
    {
        let c = s[i];
        if !(crate::text::alphanumeric(c) || c == ' ' || c == '_' || c == '-' || c == '.' || c == '/') {
            return false;
        }
        i = i + 1;
    }
    true
}

/// Reformats a substitution body into bash's canonical layout. `None` when
/// the body is empty, longer than `MAX_REFORMAT_LEN` bytes in UTF-8, plain words, does
/// not parse, or when `b` (the number of nested reformattings still
/// allowed) is zero. Nested bodies get `b - 1`.
pub fn reformat_chars(source: &[char], b: usize) -> (r: Option<Vec<char>>)
    ensures
        (source@.len() == 0 || crate::text::utf8_len(source@) > MAX_REFORMAT_LEN || b == 0 || plain_words(source@)) ==> r is None,
        !(source@.len() == 0 || crate::text::utf8_len(source@) > MAX_REFORMAT_LEN || b == 0 || plain_words(source@))
            && plain_tokens(source@, 0) is Some && pipe_line(plain_tokens(source@, 0)->0, 0)
            ==> (r matches Some(v) && exists|n: Node| #[trigger] pipeline_of(n, plain_tokens(source@, 0)->0, 0)
                && (fmt_text(n, 0) matches Some(t) ==> v@ == trim_blanks_end(t))),
    decreases b, 0int, Node::empty_spec(), 0int,
{
    if source.len() == 0 || crate::text::utf8_len_exceeds(source, MAX_REFORMAT_LEN) || b == 0 {
        return None;
    }
    if is_plain_words(source) {
        return None;
    }
    let ghost pl = plain_tokens(source@, 0) is Some && pipe_line(plain_tokens(source@, 0)->0, 0);
    proof {
        if pl {
            crate::lexer::stream::lemma_plain_tokens_len(source@, 0);
            crate::text::lemma_len_le_utf8_len(source@);
            crate::parser::plain::lemma_pipe_line_list(plain_tokens(source@, 0)->0, Node::empty_spec());
            crate::parser::plain::lemma_one_line(plain_tokens(source@, 0)->0);
        }
    }
    let mut lexer = Lexer::with_fuel(copy_chars(source), false, Fuel::fresh());
    lexer.mode = LexerMode::Cmdsub;
    let mut parser = Parser::new(lexer);
    let nodes = match parser.parse_all() {
        Ok(nodes) => nodes,
        Err(_) => return None,
    };
    proof {
        if pl {
            let ts = plain_tokens(source@, 0)->0;
            let dl = crate::parser::plain::doc_lines(ts)->0;
            assert(dl[0] == ts);
            assert(crate::parser::plain::semi_list_of(nodes@[0], dl[0], crate::parser::plain::list_starts(dl[0], 0)));
            crate::parser::plain::lemma_pipe_line_list(ts, nodes@[0]);
        }
    }
    let mut f = Formatter::new();
    let mut i: usize = 0;
    while i < nodes.len()
        invariant
            i <= nodes@.len(),
            b > 0,
            pl ==> nodes@.len() == 1 && pipeline_of(nodes@[0], plain_tokens(source@, 0)->0, 0),
            pl && i == 1 ==> (fmt_text(nodes@[0], 0) matches Some(t) ==> f.text() == t),
            i == 0 ==> f.text() == Seq::<char>::empty() && f.indentation() == 0,
        decreases nodes.len() - i,
    {
        if i > 0 {
            f.write_char('\n');
        }
        f.format_node(&nodes[i], b - 1);
        i = i + 1;
    }
    let s = f.finish();
    let v = crate::text::chars_of(s.as_str());
    proof {
        if pl {
            assert(pipeline_of(nodes@[0], plain_tokens(source@, 0)->0, 0));
        }
    }
    Some(v)
}

/// Reformats bash source into its canonical layout, allowing the same
/// nesting of reformattings as a top-level S-expression rendering.
pub fn reformat_bash(source: &str) -> (r: Option<String>)
    ensures
        (source@.len() == 0 || crate::text::utf8_len(source@) > MAX_REFORMAT_LEN || plain_words(source@)) ==> r is None,
        !(source@.len() == 0 || crate::text::utf8_len(source@) > MAX_REFORMAT_LEN || plain_words(source@))
            && plain_tokens(source@, 0) is Some && pipe_line(plain_tokens(source@, 0)->0, 0)
            ==> (r matches Some(v) && exists|n: Node| #[trigger] pipeline_of(n, plain_tokens(source@, 0)->0, 0)
                && (fmt_text(n, 0) matches Some(t) ==> v@ == trim_blanks_end(t))),
{
    let cs = crate::text::chars_of(source);
    match reformat_chars(cs.as_slice(), crate::sexp::REFORMAT_BUDGET) {
        Some(v) => Some(string_from_chars(v.as_slice())),
        None => None,
    }
}

/// The token kind the parser reads for a list operator.
pub open spec fn list_op_token(op: ListOperator) -> crate::token::TokenType {
    match op {
        ListOperator::And => crate::token::TokenType::And,
        ListOperator::Or => crate::token::TokenType::Or,
        ListOperator::Semi => crate::token::TokenType::Semi,
        ListOperator::Background => crate::token::TokenType::Ampersand,
    }
}

/// Each list operator is laid out as its own spelling, which the lexer
/// reads back as that operator's token, with a space after it and, but for
/// `;`, a space before it.
pub proof fn lemma_list_op_spelling(op: ListOperator)
    ensures
        op == ListOperator::Semi ==> nodes::list_op_text(op).len() == 2 && nodes::list_op_text(op)[1] == ' '
            && crate::lexer::operators::operator_kind(nodes::list_op_text(op).subrange(0, 1)) == list_op_token(op),
        op != ListOperator::Semi ==> nodes::list_op_text(op).len() >= 3 && nodes::list_op_text(op)[0] == ' '
            && nodes::list_op_text(op).last() == ' '
            && crate::lexer::operators::operator_kind(nodes::list_op_text(op).subrange(1, nodes::list_op_text(op).len() - 1))
                == list_op_token(op),
{
    let t = nodes::list_op_text(op);
    match op {
        ListOperator::And => { assert(t.subrange(1, 3) =~= seq!['&', '&']); }
        ListOperator::Or => { assert(t.subrange(1, 3) =~= seq!['|', '|']); }
        ListOperator::Semi => { assert(t.subrange(0, 1) =~= seq![';']); }
        ListOperator::Background => { assert(t.subrange(1, 2) =~= seq!['&']); }
    }
}

/// In a block the list operators keep their spelling: `&&` and `||` are
/// written as inline, `&` and `;` start their separators before the line
/// break.
pub proof fn lemma_block_sep_spelling(op: ListOperator, ind: nat)
    ensures
        (op == ListOperator::And || op == ListOperator::Or) ==> layout::block_sep(Some(op), ind) == nodes::list_op_text(op),
        op == ListOperator::Background ==> layout::block_sep(Some(op), ind).subrange(0, 2) == nodes::list_op_text(op).subrange(0, 2),
        op == ListOperator::Semi ==> layout::block_sep(Some(op), ind)[0] == nodes::list_op_text(op)[0],
{
    reveal_strlit(" && ");
    reveal_strlit(" || ");
    reveal_strlit(" &\n");
    reveal_strlit(";\n");
    let t = layout::block_sep(Some(op), ind);
    if op == ListOperator::Background {
        assert(t.subrange(0, 2) =~= seq![' ', '&']);
        assert(nodes::list_op_text(op).subrange(0, 2) =~= seq![' ', '&']);
    }
}

} // verus!
