//! The S-expression text of a syntax tree, as a function of the tree.
//!
//! `sexp_text` is `None` for a tree that holds a command or process
//! substitution inside a word: its body is rendered by re-reading and
//! reformatting it, which this model leaves open. Every other node is
//! rendered by the fixed rules below.
use vstd::prelude::*;
use crate::ast::{CasePattern, ListItem, ListOperator, Node, NodeKind};
use crate::lexer::word_builder::WordSpan;
use super::{escaped, param_text};
use super::segments::segments_text;
use super::word::{built_segments, filtered_spans, SegmentView};

verus! {

/// Both texts, one after the other, when both are known.
pub open spec fn cat(a: Option<Seq<char>>, b: Option<Seq<char>>) -> Option<Seq<char>> {
    match (a, b) {
        (Some(x), Some(y)) => Some(x + y),
        _ => None,
    }
}

/// A known text.
pub open spec fn lit(s: Seq<char>) -> Option<Seq<char>> {
    Some(s)
}

/// `"s"`, with the characters as they stand.
pub open spec fn quoted(s: Seq<char>) -> Seq<char> {
    seq!['"'] + s + seq!['"']
}

/// The S-expression name of a list operator.
pub open spec fn list_op_name_spec(op: ListOperator) -> Seq<char> {
    match op {
        ListOperator::And => seq!['a', 'n', 'd'],
        ListOperator::Or => seq!['o', 'r'],
        ListOperator::Semi => seq!['s', 'e', 'm', 'i'],
        ListOperator::Background => seq!['b', 'a', 'c', 'k', 'g', 'r', 'o', 'u', 'n', 'd'],
    }
}

/// A conditional term's text: a leading `$` of `$"..."` is dropped.
pub open spec fn cond_term_value(v: Seq<char>) -> Seq<char> {
    if v.len() >= 2 && v[0] == '$' && v[1] == '"' {
        v.subrange(1, v.len() as int)
    } else {
        v
    }
}

/// Every character is an ASCII digit.
pub open spec fn all_digits(s: Seq<char>) -> bool {
    forall|i: int| 0 <= i < s.len() ==> '0' <= #[trigger] s[i] <= '9'
}

/// A redirect operator after which a bare number names a descriptor:
/// it starts with `>&` or `<&`, or ends with `&-` or `&`.
pub open spec fn is_fd_op_spec(op: Seq<char>) -> bool {
    ||| op.len() >= 2 && op[0] == '>' && op[1] == '&'
    ||| op.len() >= 2 && op[0] == '<' && op[1] == '&'
    ||| op.len() >= 1 && op.last() == '&'
    ||| op.len() >= 2 && op[op.len() - 2] == '&' && op.last() == '-'
}

/// The segments of a word split at its substitutions and quotes.
#[verifier::opaque]
pub open spec fn word_segments(value: Seq<char>, spans: Seq<WordSpan>) -> Seq<SegmentView> {
    built_segments(value, filtered_spans(spans, false))
}

/// `(word "...")`: the value escaped, or its segments escaped when it has
/// spans.
pub open spec fn word_text(value: Seq<char>, spans: Seq<WordSpan>) -> Option<Seq<char>> {
    if spans.len() == 0 {
        Some("(word \""@ + escaped(value) + seq!['"', ')'])
    } else {
        match segments_text(word_segments(value, spans), true) {
            Some(t) => Some("(word \""@ + t + seq!['"', ')']),
            None => None,
        }
    }
}

/// `(cond-term "...")`: the text as it stands when it has no spans or
/// only literal segments, else its segments.
pub open spec fn cond_term_text(value: Seq<char>, spans: Seq<WordSpan>) -> Option<Seq<char>> {
    let val = cond_term_value(value);
    let segs = word_segments(val, spans);
    if spans.len() == 0 || (forall|i: int| 0 <= i < segs.len() ==> (#[trigger] segs[i]) is Literal) {
        Some("(cond-term \""@ + val + seq!['"', ')'])
    } else {
        match segments_text(segs, false) {
            Some(t) => Some("(cond-term \""@ + t + seq!['"', ')']),
            None => None,
        }
    }
}

/// `(redirect "op" target)` for a redirect whose target is a word.
pub open spec fn word_target_text(op: Seq<char>, value: Seq<char>, spans: Seq<WordSpan>) -> Option<Seq<char>> {
    if is_fd_op_spec(op) && value.len() > 0 && all_digits(value) {
        Some("(redirect "@ + quoted(op) + seq![' '] + value + seq![')'])
    } else if spans.len() > 0 {
        match segments_text(word_segments(value, spans), false) {
            Some(t) => Some("(redirect "@ + quoted(op) + seq![' '] + quoted(t) + seq![')']),
            None => None,
        }
    } else {
        Some("(redirect "@ + quoted(op) + seq![' '] + quoted(value) + seq![')'])
    }
}

/// A pipeline command starts a group unless it is a redirection.
pub open spec fn pipe_starts(s: Seq<Node>, i: int) -> bool {
    i == 0 || !(s[i].kind is Redirect)
}

/// Only redirections follow command `i`.
pub open spec fn pipe_last_group(s: Seq<Node>, i: int) -> bool {
    forall|j: int| i < j < s.len() ==> (#[trigger] s[j]).kind is Redirect
}

/// What the printer writes before command `i` of a pipeline.
pub open spec fn pipe_piece(s: Seq<Node>, i: int) -> Seq<char> {
    if pipe_starts(s, i) {
        (if i > 0 { seq![' '] } else { Seq::empty() })
            + (if !pipe_last_group(s, i) { "(pipe "@ } else { Seq::empty() })
    } else {
        seq![' ']
    }
}

/// How many of the first `k` commands start a group.
pub open spec fn pipe_groups(s: Seq<Node>, k: int) -> int
    decreases k,
{
    if k <= 0 {
        0
    } else {
        pipe_groups(s, k - 1) + if pipe_starts(s, k - 1) { 1int } else { 0int }
    }
}

/// `m` closing parentheses.
pub open spec fn closers(m: int) -> Seq<char> {
    Seq::new(if m > 0 { m as nat } else { 0 }, |_i: int| ')')
}

/// The operators of a list, in order, without the items that have none.
pub open spec fn list_ops(s: Seq<ListItem>) -> Seq<ListOperator>
    decreases s.len(),
{
    if s.len() == 0 {
        Seq::empty()
    } else {
        let rest = list_ops(s.drop_last());
        match s.last().operator {
            Some(op) => rest.push(op),
            None => rest,
        }
    }
}

/// `(op ` for the operators `top - 1` down to `k`.
pub open spec fn list_opens(ops: Seq<ListOperator>, top: int, k: int) -> Seq<char>
    decreases top - k,
{
    if k >= top || k < 0 {
        Seq::empty()
    } else {
        list_opens(ops, top, k + 1) + seq!['('] + list_op_name_spec(ops[k]) + seq![' ']
    }
}

/// The S-expression of a node; `None` where a word in it holds a command
/// or process substitution.
pub open spec fn sexp_text(node: Node) -> Option<Seq<char>>
    decreases node, 1int,
{
    match node.kind {
        NodeKind::Word { .. } => leaf_text(node),
        NodeKind::WordLiteral { .. } => leaf_text(node),
        NodeKind::CondTerm { .. } => leaf_text(node),
        NodeKind::Empty => leaf_text(node),
        NodeKind::Comment { .. } => leaf_text(node),
        NodeKind::HereDoc { .. } => leaf_text(node),
        NodeKind::ParamExpansion { .. } => leaf_text(node),
        NodeKind::ParamLength { .. } => leaf_text(node),
        NodeKind::ParamIndirect { .. } => leaf_text(node),
        NodeKind::AnsiCQuote { .. } => leaf_text(node),
        NodeKind::LocaleString { .. } => leaf_text(node),
        NodeKind::BraceExpansion { .. } => leaf_text(node),
        NodeKind::Command { .. } => command_text(node),
        NodeKind::Pipeline { .. } => command_text(node),
        NodeKind::List { .. } => command_text(node),
        NodeKind::Negation { .. } => command_text(node),
        NodeKind::Time { .. } => command_text(node),
        NodeKind::Array { .. } => command_text(node),
        NodeKind::Redirect { .. } => command_text(node),
        NodeKind::ArithmeticCommand { .. } => command_text(node),
        NodeKind::CommandSubstitution { .. } => command_text(node),
        NodeKind::ProcessSubstitution { .. } => command_text(node),
        NodeKind::Function { .. } => command_text(node),
        NodeKind::Coproc { .. } => command_text(node),
        NodeKind::If { .. } => compound_text(node),
        NodeKind::While { .. } => compound_text(node),
        NodeKind::Until { .. } => compound_text(node),
        NodeKind::Subshell { .. } => compound_text(node),
        NodeKind::BraceGroup { .. } => compound_text(node),
        NodeKind::For { .. } => loop_text(node),
        NodeKind::Select { .. } => loop_text(node),
        NodeKind::ForArith { .. } => loop_text(node),
        NodeKind::Case { .. } => case_text(node),
        NodeKind::ConditionalExpr { .. } => cond_text(node),
        NodeKind::UnaryTest { .. } => cond_text(node),
        NodeKind::BinaryTest { .. } => cond_text(node),
        NodeKind::CondAnd { .. } => cond_text(node),
        NodeKind::CondOr { .. } => cond_text(node),
        NodeKind::CondNot { .. } => cond_text(node),
        NodeKind::CondParen { .. } => cond_text(node),
        NodeKind::ArithmeticExpansion { .. } => arith_text(node),
        NodeKind::ArithNumber { .. } => arith_text(node),
        NodeKind::ArithVar { .. } => arith_text(node),
        NodeKind::ArithBinaryOp { .. } => arith_text(node),
        NodeKind::ArithUnaryOp { .. } => arith_text(node),
        NodeKind::ArithPreIncr { .. } => arith_text(node),
        NodeKind::ArithPostIncr { .. } => arith_text(node),
        NodeKind::ArithPreDecr { .. } => arith_text(node),
        NodeKind::ArithPostDecr { .. } => arith_text(node),
        NodeKind::ArithAssign { .. } => arith_rest_text(node),
        NodeKind::ArithTernary { .. } => arith_rest_text(node),
        NodeKind::ArithComma { .. } => arith_rest_text(node),
        NodeKind::ArithSubscript { .. } => arith_rest_text(node),
        NodeKind::ArithEmpty => arith_rest_text(node),
        NodeKind::ArithEscape { .. } => arith_rest_text(node),
        NodeKind::ArithDeprecated { .. } => arith_rest_text(node),
        NodeKind::ArithConcat { .. } => arith_rest_text(node),
    }
}

/// A word, a leaf or an expansion.
pub open spec fn leaf_text(node: Node) -> Option<Seq<char>>
{
    match node.kind {
        NodeKind::Word { value, spans, .. } => word_text(value@, spans@),
        NodeKind::WordLiteral { value } => Some(value@),
        NodeKind::CondTerm { value, spans } => cond_term_text(value@, spans@),
        NodeKind::Empty => Some("(command)"@),
        NodeKind::Comment { text } => Some("(comment "@ + quoted(text@) + seq![')']),
        NodeKind::HereDoc { content, strip_tabs, .. } =>
            Some((if strip_tabs { "(redirect \"<<-\" "@ } else { "(redirect \"<<\" "@ }) + quoted(content@) + seq![')']),
        NodeKind::ParamExpansion { param, op, arg } =>
            Some(param_text("${"@, param@, match op { Some(o) => Some(o@), None => None },
                match arg { Some(a) => Some(a@), None => None })),
        NodeKind::ParamLength { param } => Some("${#"@ + param@ + seq!['}']),
        NodeKind::ParamIndirect { param, op, arg } =>
            Some(param_text("${!"@, param@, match op { Some(o) => Some(o@), None => None },
                match arg { Some(a) => Some(a@), None => None })),
        NodeKind::AnsiCQuote { content, .. } => Some("$'"@ + content@ + seq!['\'']),
        NodeKind::LocaleString { content, .. } => Some("$\""@ + content@ + seq!['"']),
        NodeKind::BraceExpansion { content } => Some(content@),
        _ => None,
    }
}

/// A command, a pipeline, a list or a construct that wraps one.
pub open spec fn command_text(node: Node) -> Option<Seq<char>>
    decreases node, 0int,
{
    match node.kind {
        NodeKind::Command { assignments, words, redirects } =>
            cat(cat(cat(lit("(command"@), kids_text(assignments@)), kids_text(words@)),
                cat(kids_text(redirects@), lit(seq![')']))),
        NodeKind::Pipeline { commands, .. } => pipe_text(commands@),
        NodeKind::List { items } => list_text(items@),
        NodeKind::Negation { pipeline } => cat(lit("(negation "@), cat(sexp_text(*pipeline), lit(seq![')']))),
        NodeKind::Time { pipeline, posix } =>
            cat(lit(if posix { "(time -p "@ } else { "(time "@ }), cat(sexp_text(*pipeline), lit(seq![')']))),
        NodeKind::Array { elements } => cat(lit("(array"@), cat(kids_text(elements@), lit(seq![')']))),
        NodeKind::Redirect { op, target, .. } =>
            match target.kind {
                NodeKind::Word { value, spans, .. } => word_target_text(op@, value@, spans@),
                _ => cat(lit("(redirect "@ + quoted(op@) + seq![' ']), cat(sexp_text(*target), lit(seq![')']))),
            },
        NodeKind::ArithmeticCommand { redirects, raw_content, .. } =>
            cat(lit("(arith (word \""@ + escaped(raw_content@) + "\"))"@), kids_text(redirects@)),
        NodeKind::CommandSubstitution { command, brace } =>
            cat(lit(if brace { "(cmdsub-brace "@ } else { "(cmdsub "@ }), cat(sexp_text(*command), lit(seq![')']))),
        NodeKind::ProcessSubstitution { direction, command } =>
            cat(lit("(procsub "@ + direction@ + seq![' ']), cat(sexp_text(*command), lit(seq![')']))),
        NodeKind::Function { name, body } =>
            cat(lit("(function "@ + quoted(name@) + seq![' ']), cat(sexp_text(*body), lit(seq![')']))),
        NodeKind::Coproc { name, command } =>
            cat(lit("(coproc \""@ + (match name { Some(n) => n@, None => "COPROC"@ }) + "\" "@),
                cat(sexp_text(*command), lit(seq![')']))),
        _ => None,
    }
}

/// A conditional, loop or grouping command.
pub open spec fn compound_text(node: Node) -> Option<Seq<char>>
    decreases node, 0int,
{
    match node.kind {
        NodeKind::If { condition, then_body, else_body, redirects } =>
            cat(cat(cat(lit("(if "@), sexp_text(*condition)), cat(lit(seq![' ']), sexp_text(*then_body))),
                cat(cat(match else_body { Some(e) => cat(lit(seq![' ']), sexp_text(*e)), None => lit(Seq::empty()) }, lit(seq![')'])),
                    kids_text(redirects@))),
        NodeKind::While { condition, body, redirects } =>
            cat(cat(cat(lit("(while "@), sexp_text(*condition)), cat(lit(seq![' ']), sexp_text(*body))),
                cat(lit(seq![')']), kids_text(redirects@))),
        NodeKind::Until { condition, body, redirects } =>
            cat(cat(cat(lit("(until "@), sexp_text(*condition)), cat(lit(seq![' ']), sexp_text(*body))),
                cat(lit(seq![')']), kids_text(redirects@))),
        NodeKind::Subshell { body, redirects } =>
            cat(cat(lit("(subshell "@), sexp_text(*body)), cat(lit(seq![')']), kids_text(redirects@))),
        NodeKind::BraceGroup { body, redirects } =>
            cat(cat(lit("(brace-group "@), sexp_text(*body)), cat(lit(seq![')']), kids_text(redirects@))),
        _ => None,
    }
}

/// A `for`, `select` or arithmetic `for` loop.
pub open spec fn loop_text(node: Node) -> Option<Seq<char>>
    decreases node, 0int,
{
    match node.kind {
        NodeKind::For { var, words, body, redirects } =>
            cat(cat(lit("(for (word "@ + quoted(var@) + seq![')']),
                    match words { Some(ws) => cat(lit(" (in"@), cat(kids_text(ws@), lit(seq![')']))), None => lit(Seq::empty()) }),
                cat(cat(lit(seq![' ']), sexp_text(*body)), cat(lit(seq![')']), kids_text(redirects@)))),
        NodeKind::Select { var, words, body, redirects } =>
            cat(cat(lit("(select (word "@ + quoted(var@) + seq![')']),
                    match words { Some(ws) => cat(lit(" (in"@), cat(kids_text(ws@), lit(seq![')']))), None => lit(Seq::empty()) }),
                cat(cat(lit(seq![' ']), sexp_text(*body)), cat(lit(seq![')']), kids_text(redirects@)))),
        NodeKind::ForArith { init, cond, incr, body, redirects } =>
            cat(cat(lit("(arith-for (init (word \""@ + escaped(init@) + "\")) (test (word \""@ + escaped(cond@)
                    + "\")) (step (word \""@ + escaped(incr@) + "\")) "@), sexp_text(*body)),
                cat(lit(seq![')']), kids_text(redirects@))),
        _ => None,
    }
}

/// A `case` command.
pub open spec fn case_text(node: Node) -> Option<Seq<char>>
    decreases node, 0int,
{
    match node.kind {
        NodeKind::Case { word, patterns, redirects } =>
            cat(cat(lit("(case "@), sexp_text(*word)),
                cat(cases_text(patterns@), cat(lit(seq![')']), kids_text(redirects@)))),
        _ => None,
    }
}

/// A conditional-expression node.
pub open spec fn cond_text(node: Node) -> Option<Seq<char>>
    decreases node, 0int,
{
    match node.kind {
        NodeKind::ConditionalExpr { body, redirects } =>
            cat(cat(lit("(cond "@), sexp_text(*body)), cat(lit(seq![')']), kids_text(redirects@))),
        NodeKind::UnaryTest { op, operand } =>
            cat(lit("(cond-unary "@ + quoted(op@) + seq![' ']), cat(sexp_text(*operand), lit(seq![')']))),
        NodeKind::BinaryTest { op, left, right } =>
            cat(lit("(cond-binary "@ + quoted(op@) + seq![' ']),
                cat(sexp_text(*left), cat(lit(seq![' ']), cat(sexp_text(*right), lit(seq![')']))))),
        NodeKind::CondAnd { left, right } =>
            cat(lit("(cond-and "@), cat(sexp_text(*left), cat(lit(seq![' ']), cat(sexp_text(*right), lit(seq![')']))))),
        NodeKind::CondOr { left, right } =>
            cat(lit("(cond-or "@), cat(sexp_text(*left), cat(lit(seq![' ']), cat(sexp_text(*right), lit(seq![')']))))),
        NodeKind::CondNot { operand } => sexp_text(*operand),
        NodeKind::CondParen { inner } => cat(lit("(cond-expr "@), cat(sexp_text(*inner), lit(seq![')']))),
        _ => None,
    }
}

/// An arithmetic expansion, operand or operation.
pub open spec fn arith_text(node: Node) -> Option<Seq<char>>
    decreases node, 0int,
{
    match node.kind {
        NodeKind::ArithmeticExpansion { expression } =>
            cat(lit("(arith"@), cat(match expression { Some(e) => cat(lit(seq![' ']), sexp_text(*e)), None => lit(Seq::empty()) },
                lit(seq![')']))),
        NodeKind::ArithNumber { value } => Some(value@),
        NodeKind::ArithVar { name } => Some(name@),
        NodeKind::ArithBinaryOp { op, left, right } =>
            cat(lit(seq!['('] + op@ + seq![' ']), cat(sexp_text(*left), cat(lit(seq![' ']), cat(sexp_text(*right), lit(seq![')']))))),
        NodeKind::ArithUnaryOp { op, operand } =>
            cat(lit(seq!['('] + op@ + seq![' ']), cat(sexp_text(*operand), lit(seq![')']))),
        NodeKind::ArithPreIncr { operand } => cat(lit("(pre++ "@), cat(sexp_text(*operand), lit(seq![')']))),
        NodeKind::ArithPostIncr { operand } => cat(lit("(post++ "@), cat(sexp_text(*operand), lit(seq![')']))),
        NodeKind::ArithPreDecr { operand } => cat(lit("(pre-- "@), cat(sexp_text(*operand), lit(seq![')']))),
        NodeKind::ArithPostDecr { operand } => cat(lit("(post-- "@), cat(sexp_text(*operand), lit(seq![')']))),
        _ => None,
    }
}

/// The other arithmetic nodes.
pub open spec fn arith_rest_text(node: Node) -> Option<Seq<char>>
    decreases node, 0int,
{
    match node.kind {
        NodeKind::ArithAssign { op, target, value } =>
            cat(lit(seq!['('] + op@ + seq![' ']), cat(sexp_text(*target), cat(lit(seq![' ']), cat(sexp_text(*value), lit(seq![')']))))),
        NodeKind::ArithTernary { condition, if_true, if_false } =>
            cat(lit("(? "@), cat(sexp_text(*condition),
                cat(match if_true { Some(t) => cat(lit(seq![' ']), sexp_text(*t)), None => lit(Seq::empty()) },
                    cat(match if_false { Some(f) => cat(lit(seq![' ']), sexp_text(*f)), None => lit(Seq::empty()) }, lit(seq![')']))))),
        NodeKind::ArithComma { left, right } =>
            cat(lit("(, "@), cat(sexp_text(*left), cat(lit(seq![' ']), cat(sexp_text(*right), lit(seq![')']))))),
        NodeKind::ArithSubscript { array, index } =>
            cat(lit("(subscript "@ + array@ + seq![' ']), cat(sexp_text(*index), lit(seq![')']))),
        NodeKind::ArithEmpty => Some("(empty)"@),
        NodeKind::ArithEscape { ch } => Some("(escape "@ + ch@ + seq![')']),
        NodeKind::ArithDeprecated { expression } => Some("(arith-deprecated "@ + expression@ + seq![')']),
        NodeKind::ArithConcat { parts } => cat(lit("(concat"@), cat(kids_text(parts@), lit(seq![')']))),
        _ => None,
    }
}

/// ` n` for each node, in order.
pub open spec fn kids_text(s: Seq<Node>) -> Option<Seq<char>>
    decreases s, 0int,
{
    if s.len() == 0 {
        Some(Seq::empty())
    } else {
        cat(kids_text(s.drop_last()), cat(lit(seq![' ']), sexp_text(s.last())))
    }
}

/// The nodes separated by single spaces.
pub open spec fn join_text(s: Seq<Node>) -> Option<Seq<char>>
    decreases s, 0int,
{
    if s.len() == 0 {
        Some(Seq::empty())
    } else if s.len() == 1 {
        sexp_text(s[0])
    } else {
        cat(join_text(s.drop_last()), cat(lit(seq![' ']), sexp_text(s.last())))
    }
}

/// The first `k` commands of a pipeline, each after its piece.
pub open spec fn pipe_body(s: Seq<Node>, k: int) -> Option<Seq<char>>
    decreases s, k,
{
    if k <= 0 || k > s.len() {
        Some(Seq::empty())
    } else {
        cat(pipe_body(s, k - 1), cat(lit(pipe_piece(s, k - 1)), sexp_text(s[k - 1])))
    }
}

/// A pipeline: `(pipe a (pipe b c))`; a redirection among the commands
/// stays with the command before it.
pub open spec fn pipe_text(s: Seq<Node>) -> Option<Seq<char>>
    decreases s, s.len() + 1,
{
    if s.len() == 0 {
        Some(Seq::empty())
    } else if s.len() == 1 {
        sexp_text(s[0])
    } else {
        cat(pipe_body(s, s.len() as int), lit(closers(pipe_groups(s, s.len() as int) - 1)))
    }
}

/// The commands of the first `k` items, separated by single spaces.
pub open spec fn list_join(s: Seq<ListItem>, k: int) -> Option<Seq<char>>
    decreases s, k,
{
    if k <= 0 || k > s.len() {
        Some(Seq::empty())
    } else if k == 1 {
        sexp_text(s[0].command)
    } else {
        cat(list_join(s, k - 1), cat(lit(seq![' ']), sexp_text(s[k - 1].command)))
    }
}

/// ` c)` for the commands of items `2` to `k`.
pub open spec fn list_tails(s: Seq<ListItem>, k: int) -> Option<Seq<char>>
    decreases s, k,
{
    if k <= 1 || k >= s.len() {
        Some(Seq::empty())
    } else {
        cat(list_tails(s, k - 1), cat(lit(seq![' ']), cat(sexp_text(s[k].command), lit(seq![')']))))
    }
}

/// The body of a list with `m2` operators between its commands (a
/// trailing operator not counted): the commands one after the other when
/// there is none, else nested to the left, `(and (and a b) c)`.
pub open spec fn list_mid(s: Seq<ListItem>, ops: Seq<ListOperator>, m2: int) -> Option<Seq<char>>
    decreases s, s.len() + 1,
{
    if m2 < 0 || m2 >= s.len() || m2 > ops.len() {
        None
    } else if m2 == 0 {
        list_join(s, s.len() as int)
    } else {
        cat(lit(list_opens(ops, m2, 1) + seq!['('] + list_op_name_spec(ops[0]) + seq![' ']),
            cat(sexp_text(s[0].command), cat(lit(seq![' ']), cat(sexp_text(s[1].command),
                cat(lit(seq![')']), list_tails(s, m2))))))
    }
}

/// A list: it nests to the left, `(and (and a b) c)`; a trailing operator
/// wraps the whole list, `(background a)`; commands with no operator
/// between them are written one after the other.

pub open spec fn list_text(s: Seq<ListItem>) -> Option<Seq<char>>
    decreases s, s.len() + 2,
{
    let n = s.len() as int;
    let ops = list_ops(s);
    let m = ops.len() as int;
    if m > n {
        None
    } else if n == 1 && s[0].operator is None {
        sexp_text(s[0].command)
    } else if n == 1 && m == 1 {
        cat(lit(seq!['('] + list_op_name_spec(ops[0]) + seq![' ']), cat(sexp_text(s[0].command), lit(seq![')'])))
    } else if n <= 1 && m == 0 {
        Some(Seq::empty())
    } else {
        let trailing = n == m;
        let m2 = if trailing { m - 1 } else { m };
        let pre = if trailing { seq!['('] + list_op_name_spec(ops[m - 1]) + seq![' '] } else { Seq::empty() };
        let post = if trailing { seq![')'] } else { Seq::empty() };
        cat(lit(pre), cat(list_mid(s, ops, m2), lit(post)))
    }
}

/// `(pattern (w ...) body)`, with `()` for a clause without a body.
pub open spec fn pattern_text(p: CasePattern) -> Option<Seq<char>>
    decreases p, 0int,
{
    cat(cat(lit("(pattern ("@), join_text(p.patterns@)),
        cat(lit(seq![')']), cat(match p.body { Some(b) => cat(lit(seq![' ']), sexp_text(b)), None => lit(" ()"@) }, lit(seq![')']))))
}

/// ` (pattern ...)` for each clause, in order.
pub open spec fn cases_text(s: Seq<CasePattern>) -> Option<Seq<char>>
    decreases s, 0int,
{
    if s.len() == 0 {
        Some(Seq::empty())
    } else {
        cat(cases_text(s.drop_last()), cat(lit(seq![' ']), pattern_text(s.last())))
    }
}

} // verus!

verus! {

/// A word without spans is one literal segment (none when it is empty):
/// it is written as it stands, or escaped inside `(word "...")`.
pub proof fn lemma_plain_word(value: Seq<char>)
    ensures
        segments_text(word_segments(value, Seq::empty()), false) == Some(value),
        segments_text(word_segments(value, Seq::empty()), true) == Some(escaped(value)),
{
    reveal(word_segments);
    let segs = word_segments(value, Seq::empty());
    assert(filtered_spans(Seq::<WordSpan>::empty(), false) =~= Seq::<WordSpan>::empty());
    if value.len() > 0 {
        assert(value.subrange(0, value.len() as int) =~= value);
        assert(segs =~= seq![SegmentView::Literal(value)]);
        assert(segs.drop_last() =~= Seq::<SegmentView>::empty());
        assert(segs.last() == SegmentView::Literal(value));
        assert(segments_text(segs.drop_last(), false) == Some(Seq::<char>::empty()));
        assert(segments_text(segs.drop_last(), true) == Some(Seq::<char>::empty()));
        assert(Seq::<char>::empty() + value =~= value);
        assert(Seq::<char>::empty() + escaped(value) =~= escaped(value));
    } else {
        assert(segs =~= Seq::<SegmentView>::empty());
        assert(value =~= Seq::<char>::empty());
        assert(escaped(value) =~= Seq::<char>::empty());
    }
}

} // verus!
