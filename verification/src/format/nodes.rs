//! Simple commands, words, redirects, pipelines and lists in canonical
//! bash layout.
use vstd::prelude::*;
use crate::ast::{ListItem, ListOperator, Node, NodeKind};
use crate::lexer::word_builder::WordSpan;
use crate::sexp::nodes::{below, lemma_items_below, lemma_vec_below, write_node};
use crate::sexp::model::word_segments;
use crate::sexp::segments::{segments_text, write_segments};
use crate::sexp::word::segments_from_spans;
use crate::text::{chars_of, eq1, eq2};
use super::Formatter;
use super::layout::{leaf_src, block_sep, block_src, command_src, fd_prefix, fmt_text, heredoc_bodies_src, heredoc_pipe_src, inline_redirects_src,
    inline_src, list_sep, list_src, list_src_upto, pipe_redirects_src, pipe_src, pipe_src_upto, pipe_step_src, redirect_src,
    spaces, word_src, words_src};
use crate::sexp::model::sexp_text;

verus! {

/// A word as bash source: its segments written as they stand, with
/// substitution bodies reformatted.
pub fn process_word_value(value: &String, spans: &Vec<WordSpan>, b: usize) -> (r: Vec<char>)
    ensures
        segments_text(word_segments(value@, spans@), false) matches Some(t) ==> r@ == t,
    decreases b, 0int, Node::empty_spec(), 3int,
{
    let v = chars_of(value.as_str());
    let segs = segments_from_spans(v.as_slice(), spans.as_slice());
    proof {
        reveal(word_segments);
    }
    let mut out: Vec<char> = Vec::new();
    write_segments(&segs, &mut out, b, false);
    assert(Seq::<char>::empty() + out@ =~= out@);
    out
}

/// The descriptor a redirect operator uses when none is written: 1 for
/// `>`, `>>`, `>|`, `>&`; 0 for `<`, `<&`, `<>`; -1 otherwise.
pub open spec fn default_fd_spec(op: Seq<char>) -> int {
    if op == seq!['>'] || op == seq!['>', '>'] || op == seq!['>', '|'] || op == seq!['>', '&'] {
        1
    } else if op == seq!['<'] || op == seq!['<', '&'] || op == seq!['<', '>'] {
        0
    } else {
        -1
    }
}

/// Computes `default_fd_spec`.
pub fn default_fd_for_op(op: &[char]) -> (r: i32)
    ensures
        r == default_fd_spec(op@),
{
    if eq1(op, '>') || eq2(op, '>', '>') || eq2(op, '>', '|') || eq2(op, '>', '&') {
        1
    } else if eq1(op, '<') || eq2(op, '<', '&') || eq2(op, '<', '>') {
        0
    } else {
        -1
    }
}

/// The decimal digits of a non-negative number.
pub open spec fn decimal(n: nat) -> Seq<char>
    decreases n,
{
    if n < 10 {
        seq![digit_char(n)]
    } else {
        decimal(n / 10) + seq![digit_char(n % 10)]
    }
}

/// The digit character for `d < 10`.
pub open spec fn digit_char(d: nat) -> char {
    if d == 0 { '0' } else if d == 1 { '1' } else if d == 2 { '2' } else if d == 3 { '3' }
    else if d == 4 { '4' } else if d == 5 { '5' } else if d == 6 { '6' } else if d == 7 { '7' }
    else if d == 8 { '8' } else { '9' }
}

/// The digit character for `d < 10`.
fn digit(d: u32) -> (r: char)
    requires
        d < 10,
    ensures
        r == digit_char(d as nat),
{
    if d == 0 { '0' } else if d == 1 { '1' } else if d == 2 { '2' } else if d == 3 { '3' }
    else if d == 4 { '4' } else if d == 5 { '5' } else if d == 6 { '6' } else if d == 7 { '7' }
    else if d == 8 { '8' } else { '9' }
}

/// The decimal form of a non-negative `i32`.
pub fn decimal_chars(n: i32) -> (r: Vec<char>)
    requires
        n >= 0,
    ensures
        r@ == decimal(n as nat),
    decreases n,
{
    if n < 10 {
        let mut v: Vec<char> = Vec::new();
        v.push(digit(n as u32));
        assert(v@ =~= decimal(n as nat));
        v
    } else {
        let mut v = decimal_chars(n / 10);
        v.push(digit((n % 10) as u32));
        assert(v@ =~= decimal(n as nat));
        v
    }
}

/// Does the node, or the last command of a pipeline, carry a heredoc?
pub open spec fn has_heredoc_spec(node: Node) -> bool
    decreases node,
{
    match node.kind {
        NodeKind::Command { redirects, .. } => exists|i: int| 0 <= i < redirects@.len() && (#[trigger] redirects@[i]).kind is HereDoc,
        NodeKind::Pipeline { commands, .. } => commands@.len() > 0 && {
            proof { vstd::std_specs::vec::axiom_vec_index_decreases(commands, commands@.len() - 1); }
            has_heredoc_spec(commands@.last())
        },
        _ => false,
    }
}

/// Computes `has_heredoc_spec`.
pub fn has_heredoc_redirect_deep(node: &Node) -> (r: bool)
    ensures
        r == has_heredoc_spec(*node),
    decreases *node,
{
    match &node.kind {
        NodeKind::Command { redirects, .. } => {
            let mut i: usize = 0;
            while i < redirects.len()
                invariant
                    i <= redirects@.len(),
                    node.kind is Command,
                    *redirects == node.kind->Command_redirects,
                    forall|k: int| 0 <= k < i ==> !((#[trigger] redirects@[k]).kind is HereDoc),
                decreases redirects.len() - i,
            {
                if matches!(redirects[i].kind, NodeKind::HereDoc { .. }) {
                    assert(redirects@[i as int].kind is HereDoc);
                    return true;
                }
                i = i + 1;
            }
            false
        }
        NodeKind::Pipeline { commands, .. } => {
            if commands.len() == 0 {
                false
            } else {
                proof {
                    vstd::std_specs::vec::axiom_vec_index_decreases(node.kind->Pipeline_commands, commands@.len() - 1);
                }
                has_heredoc_redirect_deep(&commands[commands.len() - 1])
            }
        }
        _ => false,
    }
}

/// The operator between list items with its spaces: ` && `, ` || `, `; `,
/// ` & `.
pub open spec fn list_op_text(op: ListOperator) -> Seq<char> {
    match op {
        ListOperator::And => seq![' ', '&', '&', ' '],
        ListOperator::Or => seq![' ', '|', '|', ' '],
        ListOperator::Semi => seq![';', ' '],
        ListOperator::Background => seq![' ', '&', ' '],
    }
}

/// The start of the last `<<` that ends at or before `i`.
pub open spec fn last_heredoc_op(s: Seq<char>, i: int) -> Option<int>
    decreases i,
{
    if i < 2 || i > s.len() {
        None
    } else if s[i - 2] == '<' && s[i - 1] == '<' {
        Some(i - 2)
    } else {
        last_heredoc_op(s, i - 1)
    }
}

/// The end of the line of the last `<<` in `s`, when a newline ends it.
pub open spec fn heredoc_line_end(s: Seq<char>) -> Option<int> {
    match last_heredoc_op(s, s.len() as int) {
        Some(h) => if crate::lexer::line_end(s, h) < s.len() { Some(crate::lexer::line_end(s, h)) } else { None },
        None => None,
    }
}

/// Computes `list_op_text`.
pub fn list_op_str(op: ListOperator) -> (r: Vec<char>)
    ensures
        r@ == list_op_text(op),
{
    let v: Vec<char> = match op {
        ListOperator::And => vec![' ', '&', '&', ' '],
        ListOperator::Or => vec![' ', '|', '|', ' '],
        ListOperator::Semi => vec![';', ' '],
        ListOperator::Background => vec![' ', '&', ' '],
    };
    assert(v@ =~= list_op_text(op));
    v
}

/// Two known texts with `sep` between them.
pub open spec fn join_known(a: Option<Seq<char>>, sep: Seq<char>, b: Option<Seq<char>>) -> Option<Seq<char>> {
    match (a, b) {
        (Some(x), Some(y)) => Some(x + sep + y),
        _ => None,
    }
}

/// `prefix` before a known text, `suffix` after it.
pub open spec fn around(prefix: Seq<char>, a: Option<Seq<char>>, suffix: Seq<char>) -> Option<Seq<char>> {
    match a {
        Some(x) => Some(prefix + x + suffix),
        None => None,
    }
}

/// The bash source of a `[[ ]]` expression tree, as the reformatter writes
/// it; `None` for a tree that holds a node of another kind.
pub open spec fn cond_source(node: Node) -> Option<Seq<char>>
    decreases node,
{
    match node.kind {
        NodeKind::UnaryTest { op, operand } => around(op@ + seq![' '], cond_source(*operand), Seq::empty()),
        NodeKind::BinaryTest { op, left, right } =>
            join_known(cond_source(*left), seq![' '] + op@ + seq![' '], cond_source(*right)),
        NodeKind::CondAnd { left, right } => join_known(cond_source(*left), " && "@, cond_source(*right)),
        NodeKind::CondOr { left, right } => join_known(cond_source(*left), " || "@, cond_source(*right)),
        NodeKind::CondNot { operand } => around("! "@, cond_source(*operand), Seq::empty()),
        NodeKind::CondTerm { value, .. } => Some(value@),
        NodeKind::CondParen { inner } => around("( "@, cond_source(*inner), " )"@),
        _ => None,
    }
}

impl Formatter {
    /// Writes a node as canonical bash source.
    pub fn format_node(&mut self, node: &Node, b: usize)
        ensures
            fmt_text(*node, old(self).indentation()) matches Some(t) ==> final(self).text() == old(self).text() + t,
            final(self).indentation() == old(self).indentation(),
        decreases b, 2int, *node, 10int,
    {
        let ghost parent = *node;
        match &node.kind {
            NodeKind::Word { value, .. } => self.write_string(value),
            NodeKind::Pipeline { commands, .. } => {
                proof { lemma_vec_below(parent, node.kind->Pipeline_commands); }
                self.format_pipeline(commands, b, Ghost(parent));
            }
            NodeKind::List { items } => {
                proof { lemma_items_below(parent, node.kind->List_items); }
                self.format_list(items, b, Ghost(parent));
            }
            NodeKind::Empty => {}
            NodeKind::Command { assignments, words, redirects } => {
                proof {
                    lemma_vec_below(parent, node.kind->Command_assignments);
                    lemma_vec_below(parent, node.kind->Command_words);
                    lemma_vec_below(parent, node.kind->Command_redirects);
                }
                self.format_command(assignments, words, redirects, b, Ghost(parent));
            }
            NodeKind::If { .. } | NodeKind::While { .. } | NodeKind::Until { .. } | NodeKind::For { .. }
            | NodeKind::Select { .. } | NodeKind::ForArith { .. } | NodeKind::Case { .. }
            | NodeKind::Function { .. } | NodeKind::Subshell { .. } | NodeKind::BraceGroup { .. }
            | NodeKind::Negation { .. } | NodeKind::Time { .. } | NodeKind::Coproc { .. }
            | NodeKind::ConditionalExpr { .. } => self.format_compound_node(node, b),
            _ => self.write_sexp(node, b),
        }
        proof {
            reveal(leaf_src);
            if fmt_text(*node, old(self).indentation()) is Some {
                assert(self.text() =~= old(self).text() + fmt_text(*node, old(self).indentation())->0);
            }
        }
    }

    /// Writes the S-expression form of a node.
    pub fn write_sexp(&mut self, node: &Node, b: usize)
        ensures
            sexp_text(*node) matches Some(t) ==> final(self).text() == old(self).text() + t,
            final(self).indentation() == old(self).indentation(),
        decreases b, 1int, *node, 5int,
    {
        let mut v: Vec<char> = Vec::new();
        write_node(node, &mut v, b);
        self.write_chars(v.as_slice());
    }

    /// Assignments, words and redirects of a simple command; heredoc bodies
    /// follow the command line, in source order.
    pub fn format_command(&mut self, assignments: &Vec<Node>, words: &Vec<Node>, redirects: &Vec<Node>, b: usize, Ghost(parent): Ghost<Node>)
        requires
            forall|i: int| 0 <= i < assignments@.len() ==> #[trigger] below(parent, assignments@[i]),
            forall|i: int| 0 <= i < words@.len() ==> #[trigger] below(parent, words@[i]),
            forall|i: int| 0 <= i < redirects@.len() ==> #[trigger] below(parent, redirects@[i]),
        ensures
            command_src(assignments@, words@, redirects@) matches Some(t) ==> final(self).text() == old(self).text() + t,
            final(self).indentation() == old(self).indentation(),
        decreases b, 2int, parent, 7int,
    {
        let ghost r = redirects@;
        let ghost lead = assignments@.len() + words@.len() > 0;
        self.format_command_words(assignments, words, b, Ghost(parent));
        let ghost words_out = self.text();
        let mut i: usize = 0;
        while i < redirects.len()
            invariant
                self.indentation() == old(self).indentation(),
                i <= redirects@.len(),
                r == redirects@,
                lead == (assignments@.len() + words@.len() > 0),
                forall|k: int| 0 <= k < redirects@.len() ==> #[trigger] below(parent, redirects@[k]),
                inline_redirects_src(r, i as int, lead) matches Some(t) ==> self.text() == words_out + t,
            decreases redirects.len() - i,
        {
            let ghost before = self.text();
            if assignments.len() > 0 || words.len() > 0 || i > 0 {
                self.write_char(' ');
            }
            assert(below(parent, redirects@[i as int]));
            self.format_redirect_inline(&redirects[i], b, Ghost(parent));
            proof {
                if inline_redirects_src(r, i + 1, lead) is Some {
                    assert(self.text() =~= words_out + inline_redirects_src(r, i + 1, lead)->0);
                }
            }
            i = i + 1;
        }
        let ghost redir_out = self.text();
        let mut first = true;
        let mut j: usize = 0;
        while j < redirects.len()
            invariant
                self.indentation() == old(self).indentation(),
                j <= redirects@.len(),
                r == redirects@,
                first == !heredoc_bodies_src(r, j as int).1,
                self.text() == redir_out + heredoc_bodies_src(r, j as int).0,
            decreases redirects.len() - j,
        {
            if let NodeKind::HereDoc { delimiter, content, .. } = &redirects[j].kind {
                if first {
                    self.write_char('\n');
                    first = false;
                }
                self.write_heredoc_body(content, delimiter);
            }
            assert(self.text() =~= redir_out + heredoc_bodies_src(r, j + 1).0);
            j = j + 1;
        }
        proof {
            if command_src(assignments@, words@, redirects@) is Some {
                assert(self.text() =~= old(self).text() + command_src(assignments@, words@, redirects@)->0);
            }
        }
    }

    /// Assignments then words, separated by single spaces.
    pub fn format_command_words(&mut self, assignments: &Vec<Node>, words: &Vec<Node>, b: usize, Ghost(parent): Ghost<Node>)
        requires
            forall|i: int| 0 <= i < assignments@.len() ==> #[trigger] below(parent, assignments@[i]),
            forall|i: int| 0 <= i < words@.len() ==> #[trigger] below(parent, words@[i]),
        ensures
            words_src(assignments@ + words@) matches Some(t) ==> final(self).text() == old(self).text() + t,
            final(self).indentation() == old(self).indentation(),
        decreases b, 2int, parent, 5int,
    {
        let ghost all = assignments@ + words@;
        let ghost na = assignments@.len() as int;
        let mut first = true;
        let mut i: usize = 0;
        while i < assignments.len()
            invariant
                self.indentation() == old(self).indentation(),
                i <= assignments@.len(),
                all == assignments@ + words@,
                na == assignments@.len(),
                first == (i == 0),
                forall|k: int| 0 <= k < assignments@.len() ==> #[trigger] below(parent, assignments@[k]),
                words_src(all.subrange(0, i as int)) matches Some(t) ==> self.text() == old(self).text() + t,
            decreases assignments.len() - i,
        {
            if !first {
                self.write_char(' ');
            }
            first = false;
            assert(below(parent, assignments@[i as int]));
            self.format_word_or_sexp(&assignments[i], b, Ghost(parent));
            proof {
                let cur = all.subrange(0, i + 1);
                assert(cur.drop_last() =~= all.subrange(0, i as int));
                assert(cur.last() == assignments@[i as int]);
                if i == 0 {
                    assert(cur[0] == assignments@[0]);
                }
                if words_src(cur) is Some {
                    assert(self.text() =~= old(self).text() + words_src(cur)->0);
                }
            }
            i = i + 1;
        }
        let mut j: usize = 0;
        while j < words.len()
            invariant
                self.indentation() == old(self).indentation(),
                j <= words@.len(),
                all == assignments@ + words@,
                na == assignments@.len(),
                first == (na + j == 0),
                forall|k: int| 0 <= k < words@.len() ==> #[trigger] below(parent, words@[k]),
                words_src(all.subrange(0, na + j)) matches Some(t) ==> self.text() == old(self).text() + t,
            decreases words.len() - j,
        {
            if !first {
                self.write_char(' ');
            }
            first = false;
            assert(below(parent, words@[j as int]));
            self.format_word_or_sexp(&words[j], b, Ghost(parent));
            proof {
                let cur = all.subrange(0, na + j + 1);
                assert(cur.drop_last() =~= all.subrange(0, na + j));
                assert(cur.last() == words@[j as int]);
                if na + j == 0 {
                    assert(cur[0] == words@[0]);
                }
                if words_src(cur) is Some {
                    assert(self.text() =~= old(self).text() + words_src(cur)->0);
                }
            }
            j = j + 1;
        }
        assert(all.subrange(0, all.len() as int) =~= all);
    }

    /// A word as bash source, anything else in its S-expression form.
    fn format_word_or_sexp(&mut self, w: &Node, b: usize, Ghost(parent): Ghost<Node>)
        requires
            below(parent, *w),
        ensures
            word_src(*w) matches Some(t) ==> final(self).text() == old(self).text() + t,
            final(self).indentation() == old(self).indentation(),
        decreases b, 2int, parent, 4int,
    {
        if let NodeKind::Word { value, spans, .. } = &w.kind {
            let text = process_word_value(value, spans, b);
            self.write_chars(text.as_slice());
        } else {
            self.write_sexp(w, b);
        }
    }


    /// The inner expression of `[[ ... ]]` as bash source.
    pub fn format_cond_node(&mut self, node: &Node, b: usize)
        ensures
            final(self).indentation() == old(self).indentation(),
            cond_source(*node) matches Some(t) ==> final(self).text() == old(self).text() + t,
        decreases b, 2int, *node, 9int,
    {
        match &node.kind {
            NodeKind::UnaryTest { op, operand } => {
                self.write_string(op);
                self.write_char(' ');
                self.format_cond_node(operand, b);
            }
            NodeKind::BinaryTest { op, left, right } => {
                self.format_cond_node(left, b);
                self.write_char(' ');
                self.write_string(op);
                self.write_char(' ');
                self.format_cond_node(right, b);
            }
            NodeKind::CondAnd { left, right } => {
                self.format_cond_node(left, b);
                self.write_str(" && ");
                self.format_cond_node(right, b);
            }
            NodeKind::CondOr { left, right } => {
                self.format_cond_node(left, b);
                self.write_str(" || ");
                self.format_cond_node(right, b);
            }
            NodeKind::CondNot { operand } => {
                self.write_str("! ");
                self.format_cond_node(operand, b);
            }
            NodeKind::CondTerm { value, .. } => self.write_string(value),
            NodeKind::CondParen { inner } => {
                self.write_str("( ");
                self.format_cond_node(inner, b);
                self.write_str(" )");
            }
            _ => self.write_sexp(node, b),
        }
        proof {
            if cond_source(*node) is Some {
                assert(self.text() =~= old(self).text() + cond_source(*node)->0);
            }
        }
    }

    /// A redirect, followed by its body when it is a heredoc.
    pub fn format_redirect(&mut self, node: &Node, b: usize, Ghost(parent): Ghost<Node>)
        requires
            below(parent, *node),
        ensures
            redirect_src(*node) matches Some(t) ==> final(self).text() == old(self).text() + t,
            final(self).indentation() == old(self).indentation(),
        decreases b, 2int, parent, 5int,
    {
        self.format_redirect_inline(node, b, Ghost(parent));
        if let NodeKind::HereDoc { delimiter, content, .. } = &node.kind {
            self.write_char('\n');
            self.write_heredoc_body(content, delimiter);
        }
    }

    /// A heredoc's body, closing delimiter and newline.
    pub fn write_heredoc_body(&mut self, content: &String, delimiter: &String)
        ensures
            final(self).indentation() == old(self).indentation(),
            final(self).text() == old(self).text() + content@ + delimiter@ + seq!['\n'],
            final(self).indentation() == old(self).indentation(),
    {
        self.write_string(content);
        self.write_string(delimiter);
        self.write_char('\n');
    }

    /// A redirect as it stands on the command line: `[fd]op target`, or
    /// `<<DELIM` for a heredoc.
    pub fn format_redirect_inline(&mut self, node: &Node, b: usize, Ghost(parent): Ghost<Node>)
        requires
            below(parent, *node),
        ensures
            inline_src(*node) matches Some(t) ==> final(self).text() == old(self).text() + t,
            final(self).indentation() == old(self).indentation(),
        decreases b, 2int, parent, 4int,
    {
        match &node.kind {
            NodeKind::Redirect { op, target, fd, varfd } => {
                let opc = chars_of(op.as_str());
                if crate::text::eq3(opc.as_slice(), '>', '&', '-') {
                    if let Some(name) = varfd {
                        self.write_char('{');
                        self.write_string(name);
                        self.write_char('}');
                    } else if let NodeKind::Word { value, .. } = &target.kind {
                        self.write_string(value);
                    }
                    self.write_str(">&-");
                    proof {
                        assert(self.text() =~= old(self).text() + inline_src(*node)->0);
                    }
                    return;
                }
                let ghost start = self.text();
                if let Some(name) = varfd {
                    self.write_char('{');
                    self.write_string(name);
                    self.write_char('}');
                } else if *fd >= 0 && *fd != default_fd_for_op(opc.as_slice()) {
                    let digits = decimal_chars(*fd);
                    self.write_chars(digits.as_slice());
                }
                self.write_string(op);
                let is_dup = crate::text::eq2(opc.as_slice(), '>', '&') || crate::text::eq2(opc.as_slice(), '<', '&');
                if !is_dup {
                    self.write_char(' ');
                }
                let ghost head = self.text();
                assert(head =~= start + fd_prefix(*fd, match varfd { Some(n) => Some(n@), None => None }, op@) + op@
                    + (if is_dup { Seq::empty() } else { seq![' '] }));
                if let NodeKind::Word { value, spans, .. } = &target.kind {
                    let text = process_word_value(value, spans, b);
                    self.write_chars(text.as_slice());
                }
                proof {
                    if inline_src(*node) is Some {
                        assert(self.text() =~= old(self).text() + inline_src(*node)->0);
                    }
                }
            }
            NodeKind::HereDoc { delimiter, strip_tabs, quoted, .. } => {
                if *strip_tabs {
                    self.write_str("<<-");
                } else {
                    self.write_str("<<");
                }
                self.write_heredoc_delimiter(delimiter, *quoted);
                assert(self.text() =~= old(self).text() + inline_src(*node)->0);
            }
            _ => {
                assert(self.text() =~= old(self).text() + Seq::<char>::empty());
            }
        }
    }

    /// A heredoc delimiter, in single quotes when the source quoted it.
    pub fn write_heredoc_delimiter(&mut self, delimiter: &String, quoted: bool)
        ensures
            final(self).indentation() == old(self).indentation(),
            quoted ==> final(self).text() == old(self).text() + seq!['\''] + delimiter@ + seq!['\''],
            !quoted ==> final(self).text() == old(self).text() + delimiter@,
            final(self).indentation() == old(self).indentation(),
    {
        if quoted {
            self.write_char('\'');
            self.write_string(delimiter);
            self.write_char('\'');
        } else {
            self.write_string(delimiter);
        }
    }

    /// Commands joined by ` | `; after a command with a heredoc the pipe
    /// already stands on the delimiter line.
    pub fn format_pipeline(&mut self, commands: &Vec<Node>, b: usize, Ghost(parent): Ghost<Node>)
        requires
            forall|i: int| 0 <= i < commands@.len() ==> #[trigger] below(parent, commands@[i]),
        ensures
            pipe_src(commands@, old(self).indentation()) matches Some(t) ==> final(self).text() == old(self).text() + t,
            final(self).indentation() == old(self).indentation(),
        decreases b, 2int, parent, 7int,
    {
        let ghost s = commands@;
        let ghost ind = self.indentation();
        let n = commands.len();
        let mut i: usize = 0;
        while i < n
            invariant
                self.indentation() == old(self).indentation(),
                ind == old(self).indentation(),
                i <= n == commands@.len(),
                s == commands@,
                forall|k: int| 0 <= k < commands@.len() ==> #[trigger] below(parent, commands@[k]),
                pipe_src_upto(s, ind, i as int) matches Some(t) ==> self.text() == old(self).text() + t,
            decreases n - i,
        {
            let ghost before = self.text();
            assert(below(parent, commands@[i as int]));
            if i > 0 && has_heredoc_redirect_deep(&commands[i - 1]) {
                self.write_str("  ");
                self.format_node(&commands[i], b);
            } else {
                if i > 0 {
                    self.write_str(" | ");
                }
                if i + 1 < n && has_heredoc_redirect_deep(&commands[i]) {
                    self.format_command_with_heredoc_pipe(&commands[i], b, Ghost(parent));
                } else {
                    self.format_node(&commands[i], b);
                }
            }
            proof {
                if pipe_step_src(s, i as int, ind) is Some {
                    assert(self.text() =~= before + pipe_step_src(s, i as int, ind)->0);
                }
                if pipe_src_upto(s, ind, i + 1) is Some {
                    assert(self.text() =~= old(self).text() + pipe_src_upto(s, ind, i + 1)->0);
                }
            }
            i = i + 1;
        }
    }

    /// A command with a heredoc inside a pipeline: ` |` goes on the
    /// delimiter line, before the body.
    #[verifier::spinoff_prover]
    #[verifier::rlimit(40)]
    fn format_command_with_heredoc_pipe(&mut self, node: &Node, b: usize, Ghost(parent): Ghost<Node>)
        requires
            below(parent, *node),
        ensures
            heredoc_pipe_src(*node) matches Some(t) ==> final(self).text() == old(self).text() + t,
            final(self).indentation() == old(self).indentation(),
        decreases b, 2int, parent, 6int,
    {
        if let NodeKind::Command { assignments, words, redirects } = &node.kind {
            proof {
                lemma_vec_below(*node, node.kind->Command_assignments);
                lemma_vec_below(*node, node.kind->Command_words);
                lemma_vec_below(*node, node.kind->Command_redirects);
                assert forall|i: int| 0 <= i < assignments@.len() implies #[trigger] below(parent, assignments@[i]) by {
                    assert(below(*node, assignments@[i]));
                }
                assert forall|i: int| 0 <= i < words@.len() implies #[trigger] below(parent, words@[i]) by {
                    assert(below(*node, words@[i]));
                }
                assert forall|i: int| 0 <= i < redirects@.len() implies #[trigger] below(parent, redirects@[i]) by {
                    assert(below(*node, redirects@[i]));
                }
            }
            let ghost r = redirects@;
            self.format_command_words(assignments, words, b, Ghost(parent));
            let ghost words_out = self.text();
            let mut i: usize = 0;
            while i < redirects.len()
                invariant
                    self.indentation() == old(self).indentation(),
                    i <= redirects@.len(),
                    r == redirects@,
                    forall|k: int| 0 <= k < redirects@.len() ==> #[trigger] below(parent, redirects@[k]),
                    pipe_redirects_src(r, i as int) matches Some(t) ==> self.text() == words_out + t,
                decreases redirects.len() - i,
            {
                let ghost before = self.text();
                let x = &redirects[i];
                if let NodeKind::HereDoc { delimiter, content, strip_tabs, quoted, .. } = &x.kind {
                    if *strip_tabs {
                        self.write_str(" <<-");
                    } else {
                        self.write_str(" <<");
                    }
                    self.write_heredoc_delimiter(delimiter, *quoted);
                    self.write_str(" |\n");
                    self.write_heredoc_body(content, delimiter);
                } else {
                    self.write_char(' ');
                    assert(below(parent, redirects@[i as int]));
                    self.format_redirect(x, b, Ghost(parent));
                }
                proof {
                    if pipe_redirects_src(r, i + 1) is Some {
                        assert(self.text() =~= words_out + pipe_redirects_src(r, i + 1)->0);
                    }
                }
                i = i + 1;
            }
            proof {
                if heredoc_pipe_src(*node) is Some {
                    assert(self.text() =~= old(self).text() + heredoc_pipe_src(*node)->0);
                }
            }
        } else {
            assert(self.text() =~= old(self).text() + Seq::<char>::empty());
        }
    }

    /// Items on one line joined by their operators; after an item with a
    /// heredoc, `;` becomes a newline, and a trailing operator goes on the
    /// heredoc's delimiter line.
    pub fn format_list(&mut self, items: &Vec<ListItem>, b: usize, Ghost(parent): Ghost<Node>)
        requires
            forall|i: int| 0 <= i < items@.len() ==> #[trigger] below(parent, items@[i].command),
        ensures
            list_src(items@, old(self).indentation()) matches Some(t) ==> final(self).text() == old(self).text() + t,
            final(self).indentation() == old(self).indentation(),
        decreases b, 2int, parent, 7int,
    {
        let ghost s = items@;
        let ghost ind = self.indentation();
        let n = items.len();
        let mut i: usize = 0;
        while i < n
            invariant
                self.indentation() == old(self).indentation(),
                ind == old(self).indentation(),
                i <= n == items@.len(),
                s == items@,
                forall|k: int| 0 <= k < items@.len() ==> #[trigger] below(parent, items@[k].command),
                list_src_upto(s, ind, i as int) matches Some(t) ==> self.text() == old(self).text() + t,
            decreases n - i,
        {
            let ghost before = self.text();
            if i > 0 {
                match items[i - 1].operator {
                    Some(op) => {
                        if op == ListOperator::Semi && has_heredoc_redirect_deep(&items[i - 1].command) {
                            self.write_char('\n');
                        } else {
                            let t = list_op_str(op);
                            self.write_chars(t.as_slice());
                        }
                    }
                    None => self.write_str("; "),
                }
            }
            let ghost sep_out = self.text();
            assert(sep_out =~= before + (if i > 0 { list_sep(s[i - 1]) } else { Seq::empty() }));
            assert(below(parent, items@[i as int].command));
            self.format_node(&items[i].command, b);
            proof {
                if list_src_upto(s, ind, i + 1) is Some {
                    assert(self.text() =~= old(self).text() + list_src_upto(s, ind, i + 1)->0);
                }
            }
            i = i + 1;
        }
        if n > 0 {
            if let Some(op) = items[n - 1].operator {
                if has_heredoc_redirect_deep(&items[n - 1].command) {
                    self.insert_op_before_heredoc(op);
                } else {
                    let t = list_op_str(op);
                    self.write_chars(t.as_slice());
                }
            }
        }
        proof {
            if list_src(s, ind) is Some {
                assert(self.text() =~= old(self).text() + list_src(s, ind)->0);
            }
        }
    }

    /// Puts a trailing operator at the end of the last `<<` line, before
    /// the heredoc body; appends it when there is no such line.
    pub fn insert_op_before_heredoc(&mut self, op: ListOperator)
        ensures
            final(self).indentation() == old(self).indentation(),
            heredoc_line_end(old(self).text()) matches Some(j) ==> final(self).text()
                == old(self).text().subrange(0, j) + crate::text::trim_end(list_op_text(op))
                    + old(self).text().subrange(j, old(self).text().len() as int),
            heredoc_line_end(old(self).text()) is None ==> final(self).text() == old(self).text() + list_op_text(op),
    {
        let t = list_op_str(op);
        let n = self.out().len();
        let ghost txt = self.text();
        let mut found: Option<usize> = None;
        let mut i: usize = n;
        while i >= 2 && found.is_none()
            invariant
                self.indentation() == old(self).indentation(),
                self.text() == txt,
                i <= n == self.text().len(),
                found is Some ==> found->0 + 2 <= n,
                found is None ==> last_heredoc_op(txt, i as int) == last_heredoc_op(txt, n as int),
                found matches Some(h) ==> last_heredoc_op(txt, n as int) == Some(h as int),
            decreases i,
        {
            if self.out()[i - 2] == '<' && self.out()[i - 1] == '<' {
                found = Some(i - 2);
            }
            i = i - 1;
        }
        if let Some(h) = found {
            let mut j = h;
            while j < n && self.out()[j] != '\n'
                invariant
                    self.indentation() == old(self).indentation(),
                    self.text() == txt,
                    h <= j <= n == self.text().len(),
                    crate::lexer::line_end(txt, j as int) == crate::lexer::line_end(txt, h as int),
                decreases n - j,
            {
                j = j + 1;
            }
            if j < n {
                let tlen = t.len();
                proof {
                    assert(t@.subrange(0, tlen as int) =~= t@);
                }
                let mut e = tlen;
                while e > 0 && crate::text::whitespace(t[e - 1])
                    invariant
                    self.indentation() == old(self).indentation(),
                        self.text() == txt,
                        e <= tlen == t@.len(),
                        crate::text::trim_end(t@.subrange(0, e as int)) == crate::text::trim_end(t@),
                    decreases e,
                {
                    proof {
                        assert(t@.subrange(0, e as int).drop_last() =~= t@.subrange(0, e - 1));
                    }
                    e = e - 1;
                }

                let trimmed = match crate::text::slice_chars(t.as_slice(), 0, e) {
                    Some(v) => v,
                    None => Vec::new(),
                };
                self.insert_at(j, trimmed.as_slice());
                return;
            }
        }
        self.write_chars(t.as_slice());
    }

    /// A function body's list, one statement per line: `;` and `&` end a
    /// line, `&&` and `||` stay inline.
    pub fn format_list_block(&mut self, items: &Vec<ListItem>, b: usize, Ghost(parent): Ghost<Node>)
        requires
            forall|i: int| 0 <= i < items@.len() ==> #[trigger] below(parent, items@[i].command),
        ensures
            block_src(items@, old(self).indentation(), items@.len() as int) matches Some(t)
                ==> final(self).text() == old(self).text() + t,
            final(self).indentation() == old(self).indentation(),
        decreases b, 2int, parent, 7int,
    {
        let ghost s = items@;
        let ghost ind = self.indentation();
        let n = items.len();
        let mut i: usize = 0;
        while i < n
            invariant
                self.indentation() == old(self).indentation(),
                ind == old(self).indentation(),
                i <= n == items@.len(),
                s == items@,
                forall|k: int| 0 <= k < items@.len() ==> #[trigger] below(parent, items@[k].command),
                block_src(s, ind, i as int) matches Some(t) ==> self.text() == old(self).text() + t,
            decreases n - i,
        {
            let ghost before = self.text();
            if i == 0 {
                self.indent_here();
            }
            let ghost head = self.text();
            assert(below(parent, items@[i as int].command));
            self.format_node(&items[i].command, b);
            let ghost mid = self.text();
            if i + 1 < n {
                match items[i].operator {
                    Some(ListOperator::And) => self.write_str(" && "),
                    Some(ListOperator::Or) => self.write_str(" || "),
                    Some(ListOperator::Background) => {
                        self.write_str(" &\n");
                        self.indent_here();
                    }
                    _ => {
                        self.write_str(";\n");
                        self.indent_here();
                    }
                }
            }
            assert(self.text() =~= mid + (if i + 1 < n { block_sep(s[i as int].operator, ind) } else { Seq::empty() }));
            proof {
                if block_src(s, ind, i + 1) is Some {
                    assert(self.text() =~= old(self).text() + block_src(s, ind, i + 1)->0);
                }
            }
            i = i + 1;
        }
    }
}

} // verus!
