//! The canonical bash layout of a syntax tree, as a function of the tree
//! and the indentation it starts at.
//!
//! `fmt_text` is `None` where the layout depends on text written before
//! the node (a trailing list operator moved onto an earlier heredoc line)
//! or where a word holds a command or process substitution, whose body is
//! parsed and reformatted again.
use vstd::prelude::*;
use crate::ast::{CasePattern, ListItem, ListOperator, Node, NodeKind};
use crate::sexp::model::{cat, lit, sexp_text, word_segments};
use crate::sexp::segments::segments_text;
use super::nodes::{cond_source, decimal, default_fd_spec, has_heredoc_spec, list_op_text};

verus! {

/// `a + d`, saturating at `usize::MAX`.
pub open spec fn sat_add(a: nat, d: nat) -> nat {
    if a + d > usize::MAX { usize::MAX as nat } else { a + d }
}

/// `n` spaces.
pub open spec fn spaces(n: nat) -> Seq<char> {
    Seq::new(n, |_i: int| ' ')
}

/// A word of a simple command: its segments as they stand; any other node
/// in its S-expression form.
pub open spec fn word_src(w: Node) -> Option<Seq<char>> {
    match w.kind {
        NodeKind::Word { value, spans, .. } => segments_text(word_segments(value@, spans@), false),
        _ => sexp_text(w),
    }
}

/// Nodes written with `word_src`, separated by single spaces.
pub open spec fn words_src(s: Seq<Node>) -> Option<Seq<char>>
    decreases s.len(),
{
    if s.len() == 0 {
        Some(Seq::empty())
    } else if s.len() == 1 {
        word_src(s[0])
    } else {
        cat(words_src(s.drop_last()), cat(lit(seq![' ']), word_src(s.last())))
    }
}

/// A word's text as it stands; nothing for a node of another kind.
pub open spec fn plain_value(w: Node) -> Seq<char> {
    match w.kind {
        NodeKind::Word { value, .. } => value@,
        _ => Seq::empty(),
    }
}

/// `{name}`, or the descriptor when it is not the operator's default.
pub open spec fn fd_prefix(fd: i32, varfd: Option<Seq<char>>, op: Seq<char>) -> Seq<char> {
    match varfd {
        Some(name) => seq!['{'] + name + seq!['}'],
        None => if fd >= 0 && fd != default_fd_spec(op) { decimal(fd as nat) } else { Seq::empty() },
    }
}

/// A redirect as it stands on the command line: `[fd]op target`, or
/// `<<DELIM` for a heredoc; nothing for a node of another kind.
pub open spec fn inline_src(r: Node) -> Option<Seq<char>> {
    match r.kind {
        NodeKind::Redirect { op, target, fd, varfd } =>
            if op@ == seq!['>', '&', '-'] {
                Some((match varfd {
                    Some(name) => seq!['{'] + name@ + seq!['}'],
                    None => plain_value(*target),
                }) + ">&-"@)
            } else {
                let vf = match varfd { Some(n) => Some(n@), None => None };
                let is_dup = op@ == seq!['>', '&'] || op@ == seq!['<', '&'];
                cat(lit(fd_prefix(fd, vf, op@) + op@ + (if is_dup { Seq::empty() } else { seq![' '] })),
                    match target.kind {
                        NodeKind::Word { value, spans, .. } => segments_text(word_segments(value@, spans@), false),
                        _ => Some(Seq::empty()),
                    })
            },
        NodeKind::HereDoc { delimiter, strip_tabs, quoted, .. } =>
            Some((if strip_tabs { "<<-"@ } else { "<<"@ })
                + (if quoted { seq!['\''] + delimiter@ + seq!['\''] } else { delimiter@ })),
        _ => Some(Seq::empty()),
    }
}

/// A heredoc's body, closing delimiter and newline; nothing for another
/// redirect.
pub open spec fn heredoc_body_src(r: Node) -> Seq<char> {
    match r.kind {
        NodeKind::HereDoc { delimiter, content, .. } => content@ + delimiter@ + seq!['\n'],
        _ => Seq::empty(),
    }
}

/// A redirect followed by its body when it is a heredoc.
pub open spec fn redirect_src(r: Node) -> Option<Seq<char>> {
    cat(inline_src(r), lit(if r.kind is HereDoc { seq!['\n'] + heredoc_body_src(r) } else { Seq::empty() }))
}

/// ` r` for each of the first `k` redirects, written inline; the first
/// has no space before it unless `lead`.
pub open spec fn inline_redirects_src(r: Seq<Node>, k: int, lead: bool) -> Option<Seq<char>>
    decreases k,
{
    if k <= 0 || k > r.len() {
        Some(Seq::empty())
    } else {
        cat(inline_redirects_src(r, k - 1, lead),
            cat(lit(if lead || k - 1 > 0 { seq![' '] } else { Seq::empty() }), inline_src(r[k - 1])))
    }
}

/// The bodies of the heredocs among the first `k` redirects, after a
/// newline when there is one, and whether there was one.
pub open spec fn heredoc_bodies_src(r: Seq<Node>, k: int) -> (Seq<char>, bool)
    decreases k,
{
    if k <= 0 || k > r.len() {
        (Seq::empty(), false)
    } else {
        let (before, seen) = heredoc_bodies_src(r, k - 1);
        if r[k - 1].kind is HereDoc {
            ((if seen { before } else { before + seq!['\n'] }) + heredoc_body_src(r[k - 1]), true)
        } else {
            (before, seen)
        }
    }
}

/// A simple command: its words, its redirects inline, then the heredoc
/// bodies.
pub open spec fn command_src(a: Seq<Node>, w: Seq<Node>, r: Seq<Node>) -> Option<Seq<char>> {
    cat(words_src(a + w),
        cat(inline_redirects_src(r, r.len() as int, a.len() + w.len() > 0), lit(heredoc_bodies_src(r, r.len() as int).0)))
}

/// ` r` for each redirect of a command standing before a pipe: a heredoc
/// puts ` |` on its delimiter line, before its body.
pub open spec fn pipe_redirects_src(r: Seq<Node>, k: int) -> Option<Seq<char>>
    decreases k,
{
    if k <= 0 || k > r.len() {
        Some(Seq::empty())
    } else {
        let x = r[k - 1];
        cat(pipe_redirects_src(r, k - 1),
            match x.kind {
                NodeKind::HereDoc { delimiter, content, strip_tabs, quoted, .. } =>
                    Some((if strip_tabs { " <<-"@ } else { " <<"@ })
                        + (if quoted { seq!['\''] + delimiter@ + seq!['\''] } else { delimiter@ })
                        + " |\n"@ + content@ + delimiter@ + seq!['\n']),
                _ => cat(lit(seq![' ']), redirect_src(x)),
            })
    }
}

/// A command with a heredoc inside a pipeline; nothing for a node that is
/// not a simple command.
pub open spec fn heredoc_pipe_src(node: Node) -> Option<Seq<char>> {
    match node.kind {
        NodeKind::Command { assignments, words, redirects } =>
            cat(words_src(assignments@ + words@), pipe_redirects_src(redirects@, redirects@.len() as int)),
        _ => Some(Seq::empty()),
    }
}

/// The separator a list writes after an item: its operator, `; ` when it
/// has none, a newline for `;` after a heredoc.
pub open spec fn list_sep(item: ListItem) -> Seq<char> {
    match item.operator {
        Some(op) => if op == ListOperator::Semi && has_heredoc_spec(item.command) { seq!['\n'] } else { list_op_text(op) },
        None => "; "@,
    }
}

/// The separator a function body's list writes after a statement.
pub open spec fn block_sep(op: Option<ListOperator>, ind: nat) -> Seq<char> {
    match op {
        Some(ListOperator::And) => " && "@,
        Some(ListOperator::Or) => " || "@,
        Some(ListOperator::Background) => " &\n"@ + spaces(ind),
        _ => ";\n"@ + spaces(ind),
    }
}

/// The words of a `for`/`select` list, each after a space, as they stand.
pub open spec fn in_words_src(s: Seq<Node>) -> Seq<char>
    decreases s.len(),
{
    if s.len() == 0 { Seq::empty() } else { in_words_src(s.drop_last()) + seq![' '] + plain_value(s.last()) }
}

/// The patterns of a `case` clause, joined by ` | `, as they stand.
pub open spec fn alternatives_src(s: Seq<Node>) -> Seq<char>
    decreases s.len(),
{
    if s.len() == 0 {
        Seq::empty()
    } else if s.len() == 1 {
        plain_value(s[0])
    } else {
        alternatives_src(s.drop_last()) + " | "@ + plain_value(s.last())
    }
}

/// The layout of a word, an empty command, a simple command, or a node
/// written in its S-expression form.
#[verifier::opaque]
pub open spec fn leaf_src(node: Node) -> Option<Seq<char>> {
    match node.kind {
        NodeKind::Word { value, .. } => Some(value@),
        NodeKind::Empty => Some(Seq::empty()),
        NodeKind::Command { assignments, words, redirects } => command_src(assignments@, words@, redirects@),
        _ => sexp_text(node),
    }
}

/// The canonical bash layout of a node at indentation `ind`.
pub open spec fn fmt_text(node: Node, ind: nat) -> Option<Seq<char>>
    decreases node, 1int,
{
    match node.kind {
        NodeKind::Pipeline { commands, .. } => pipe_src(commands@, ind),
        NodeKind::List { items } => list_src(items@, ind),
        NodeKind::If { .. } => if_src(node, ind),
        NodeKind::While { .. } => while_src(node, ind),
        NodeKind::Until { .. } => while_src(node, ind),
        NodeKind::For { .. } => for_src(node, ind),
        NodeKind::Select { .. } => for_src(node, ind),
        NodeKind::ForArith { .. } => for_src(node, ind),
        NodeKind::Case { .. } => case_src(node, ind),
        NodeKind::Function { .. } => function_src(node, ind),
        NodeKind::Subshell { .. } => group_src(node, ind),
        NodeKind::BraceGroup { .. } => group_src(node, ind),
        NodeKind::Negation { .. } => group_src(node, ind),
        NodeKind::Time { .. } => group_src(node, ind),
        NodeKind::Coproc { .. } => group_src(node, ind),
        NodeKind::ConditionalExpr { .. } => group_src(node, ind),
        _ => leaf_src(node),
    }
}

/// `if c; then ... [else ...] fi`.
pub open spec fn if_src(node: Node, ind: nat) -> Option<Seq<char>>
    decreases node, 0int,
{
    match node.kind {
        NodeKind::If { condition, then_body, else_body, .. } =>
            cat(cat(lit("if "@), fmt_text(*condition, ind)),
                cat(cat(lit("; then\n"@), body_src(*then_body, ind)),
                    cat(match else_body {
                        Some(e) => cat(lit(spaces(ind) + "else\n"@), body_src(*e, ind)),
                        None => lit(Seq::empty()),
                    }, lit(spaces(ind) + "fi"@)))),
        _ => None,
    }
}

/// `while c; do ... done` and `until c; do ... done`.
pub open spec fn while_src(node: Node, ind: nat) -> Option<Seq<char>>
    decreases node, 0int,
{
    match node.kind {
        NodeKind::While { condition, body, redirects } =>
            cat(cat(lit("while "@), fmt_text(*condition, ind)),
                cat(cat(lit("; do\n"@), body_src(*body, ind)),
                    cat(lit(spaces(ind) + "done"@), trailing_src(redirects@)))),
        NodeKind::Until { condition, body, redirects } =>
            cat(cat(lit("until "@), fmt_text(*condition, ind)),
                cat(cat(lit("; do\n"@), body_src(*body, ind)),
                    cat(lit(spaces(ind) + "done"@), trailing_src(redirects@)))),
        _ => None,
    }
}

/// `for`, `select` and the arithmetic `for ((...))`.
pub open spec fn for_src(node: Node, ind: nat) -> Option<Seq<char>>
    decreases node, 0int,
{
    match node.kind {
        NodeKind::For { var, words, body, .. } => cat(lit("for "@), loop_tail_src(var@, words, *body, ind)),
        NodeKind::Select { var, words, body, redirects } =>
            cat(cat(lit("select "@), loop_tail_src(var@, words, *body, ind)), trailing_src(redirects@)),
        NodeKind::ForArith { init, cond, incr, body, .. } =>
            cat(lit("for (("@ + init@ + "; "@ + cond@ + "; "@ + incr@ + "))\n"@ + spaces(ind) + "do\n"@),
                cat(body_src(*body, ind), lit(spaces(ind) + "done"@))),
        _ => None,
    }
}

/// `case w in a | b) ... ;; esac`.
pub open spec fn case_src(node: Node, ind: nat) -> Option<Seq<char>>
    decreases node, 0int,
{
    match node.kind {
        NodeKind::Case { word, patterns, redirects } =>
            cat(cat(lit("case "@ + plain_value(*word) + " in "@), clauses_src(patterns@, ind)),
                cat(lit(seq!['\n'] + spaces(ind) + "esac"@), trailing_src(redirects@))),
        _ => None,
    }
}

/// `function name () { ... }`.
pub open spec fn function_src(node: Node, ind: nat) -> Option<Seq<char>>
    decreases node, 0int,
{
    match node.kind {
        NodeKind::Function { name, body } =>
            cat(lit("function "@ + name@ + " () \n"@ + "{ \n"@),
                cat(match body.kind {
                    NodeKind::BraceGroup { body: inner, .. } => function_body_src(*inner, ind),
                    _ => function_body_src(*body, ind),
                }, lit(seq!['\n'] + spaces(ind) + seq!['}']))),
        _ => None,
    }
}

/// Subshells, brace groups, `!`, `time`, `coproc` and `[[ ... ]]`.
pub open spec fn group_src(node: Node, ind: nat) -> Option<Seq<char>>
    decreases node, 0int,
{
    match node.kind {
        NodeKind::Subshell { body, redirects } =>
            cat(cat(lit("( "@), fmt_text(*body, ind)), cat(lit(" )"@), trailing_src(redirects@))),
        NodeKind::BraceGroup { body, redirects } =>
            cat(cat(lit("{ "@), fmt_text(*body, ind)), cat(lit("; }"@), trailing_src(redirects@))),
        NodeKind::Negation { pipeline } => cat(lit("! "@), fmt_text(*pipeline, ind)),
        NodeKind::Time { pipeline, posix } =>
            cat(lit(if posix { "time -p "@ } else { "time "@ }), fmt_text(*pipeline, ind)),
        NodeKind::Coproc { name, command } =>
            cat(lit("coproc "@ + match name { Some(n) => n@ + seq![' '], None => Seq::empty() }), fmt_text(*command, ind)),
        NodeKind::ConditionalExpr { body, .. } =>
            match cond_source(*body) {
                Some(t) => Some("[[ "@ + t + " ]]"@),
                None => None,
            },
        _ => None,
    }
}

/// A body one level deeper: `indent node;` and a newline.
pub open spec fn body_src(node: Node, ind: nat) -> Option<Seq<char>>
    decreases node, 2int,
{
    let ind2 = sat_add(ind, 4);
    cat(lit(spaces(ind2)), cat(fmt_text(node, ind2), lit(";\n"@)))
}

/// ` r` for each trailing redirect of a compound command.
pub open spec fn trailing_src(r: Seq<Node>) -> Option<Seq<char>>
    decreases r.len(),
{
    if r.len() == 0 {
        Some(Seq::empty())
    } else {
        cat(trailing_src(r.drop_last()), cat(lit(seq![' ']), redirect_src(r.last())))
    }
}

/// `var [in w ...];` then the `do ... done` body of `for` and `select`.
pub open spec fn loop_tail_src(var: Seq<char>, words: Option<Vec<Node>>, body: Node, ind: nat) -> Option<Seq<char>>
    decreases body, 3int,
{
    cat(lit(var + match words { Some(ws) => " in"@ + in_words_src(ws@), None => Seq::empty() }
            + ";\n"@ + spaces(ind) + "do\n"@),
        cat(body_src(body, ind), lit(spaces(ind) + "done"@)))
}

/// A function's body: a list one statement per line, anything else on one
/// line, one level deeper.
pub open spec fn function_body_src(inner: Node, ind: nat) -> Option<Seq<char>>
    decreases inner, 2int,
{
    let ind4 = sat_add(ind, 4);
    match inner.kind {
        NodeKind::List { items } => block_src(items@, ind4, items@.len() as int),
        _ => cat(lit(spaces(ind4)), fmt_text(inner, ind4)),
    }
}

/// The first `k` statements of a function body's list.
pub open spec fn block_src(s: Seq<ListItem>, ind: nat, k: int) -> Option<Seq<char>>
    decreases s, k,
{
    if k <= 0 || k > s.len() {
        Some(Seq::empty())
    } else if k == 1 {
        cat(lit(spaces(ind)), cat(fmt_text(s[0].command, ind),
            lit(if s.len() > 1 { block_sep(s[0].operator, ind) } else { Seq::empty() })))
    } else {
        cat(block_src(s, ind, k - 1), cat(fmt_text(s[k - 1].command, ind),
            lit(if k < s.len() { block_sep(s[k - 1].operator, ind) } else { Seq::empty() })))
    }
}

/// The clauses of a `case` command.
pub open spec fn clauses_src(s: Seq<CasePattern>, ind: nat) -> Option<Seq<char>>
    decreases s, 0int,
{
    if s.len() == 0 {
        Some(Seq::empty())
    } else {
        cat(clauses_src(s.drop_last(), ind),
            cat(lit(if s.len() > 1 { seq!['\n'] + spaces(sat_add(ind, 4)) } else { Seq::empty() }),
                clause_src(s.last(), ind)))
    }
}

/// One `case` clause: `a | b)`, its body two levels deeper, its terminator.
pub open spec fn clause_src(p: CasePattern, ind: nat) -> Option<Seq<char>>
    decreases p, 0int,
{
    let ind8 = sat_add(ind, 8);
    cat(lit(alternatives_src(p.patterns@) + ")\n"@ + spaces(ind8)),
        cat(match p.body { Some(b) => fmt_text(b, ind8), None => lit(Seq::empty()) },
            lit(seq!['\n'] + spaces(sat_add(ind, 4)) + p.terminator@)))
}

/// What a pipeline writes before command `i` and the command itself.
pub open spec fn pipe_step_src(s: Seq<Node>, i: int, ind: nat) -> Option<Seq<char>>
    decreases s, 0int,
{
    if !(0 <= i < s.len()) {
        None
    } else if i > 0 && has_heredoc_spec(s[i - 1]) {
        cat(lit("  "@), fmt_text(s[i], ind))
    } else {
        cat(lit(if i > 0 { " | "@ } else { Seq::empty() }),
            if i + 1 < s.len() && has_heredoc_spec(s[i]) { heredoc_pipe_src(s[i]) } else { fmt_text(s[i], ind) })
    }
}

/// The first `k` commands of a pipeline.
pub open spec fn pipe_src_upto(s: Seq<Node>, ind: nat, k: int) -> Option<Seq<char>>
    decreases s, k,
{
    if k <= 0 || k > s.len() {
        Some(Seq::empty())
    } else {
        cat(pipe_src_upto(s, ind, k - 1), pipe_step_src(s, k - 1, ind))
    }
}

/// Commands joined by ` | `; after a command with a heredoc the pipe
/// already stands on the delimiter line.
pub open spec fn pipe_src(s: Seq<Node>, ind: nat) -> Option<Seq<char>>
    decreases s, s.len() + 1,
{
    pipe_src_upto(s, ind, s.len() as int)
}

/// The first `k` items of a list joined by their separators.
pub open spec fn list_src_upto(s: Seq<ListItem>, ind: nat, k: int) -> Option<Seq<char>>
    decreases s, k,
{
    if k <= 0 || k > s.len() {
        Some(Seq::empty())
    } else {
        cat(list_src_upto(s, ind, k - 1),
            cat(lit(if k - 1 > 0 { list_sep(s[k - 2]) } else { Seq::empty() }), fmt_text(s[k - 1].command, ind)))
    }
}

/// Items on one line joined by their operators, then a trailing operator;
/// `None` when that operator moves onto an earlier heredoc line.
pub open spec fn list_src(s: Seq<ListItem>, ind: nat) -> Option<Seq<char>>
    decreases s, s.len() + 1,
{
    let n = s.len() as int;
    let body = list_src_upto(s, ind, n);
    if n > 0 && s[n - 1].operator is Some {
        if has_heredoc_spec(s[n - 1].command) {
            None
        } else {
            cat(body, lit(list_op_text(s[n - 1].operator->0)))
        }
    } else {
        body
    }
}

} // verus!
