//! Small helpers shared by the parser.
use vstd::prelude::*;
use crate::ast::{CasePattern, ListItem, Node, NodeKind};
use crate::error::{RableError, Result};
use crate::lexer::{same_source, Fuel, Lexer};
use crate::text::{chars_of, eq1, eq2, eq3, string_from_chars};
use crate::token::{Token, TokenType};
use super::word_parts::{decompose_with_fuel, decompose_word_literal, part_segments, parts_fit};

pub use crate::lexer::heredoc::parse_heredoc_delimiter;

verus! {

/// A `Word` node from a lexer token, with its parts decomposed.
pub fn word_node_from_token(tok: Token, fuel: &mut Fuel) -> (r: Result<Node>)
    ensures
        final(fuel).budget <= old(fuel).budget,
        final(fuel).nest == old(fuel).nest,
        r is Ok ==> r->Ok_0.kind is Word && r->Ok_0.kind->Word_value == tok.value,
        r is Ok ==> r->Ok_0.kind->Word_spans == tok.spans
            && parts_fit(part_segments(tok.value@, tok.spans@), r->Ok_0.kind->Word_parts@),
        r is Err ==> final(fuel).budget == 0,
        tok.spans@.len() == 0 && tok.value@.len() > 0 && old(fuel).budget >= 3 ==> (r is Ok
            && r->Ok_0.kind->Word_parts@.len() == 1 && r->Ok_0.kind->Word_parts@[0].kind is WordLiteral
            && r->Ok_0.kind->Word_parts@[0].kind->WordLiteral_value@ == tok.value@),
    decreases old(fuel).budget,
{
    fuel.tick(tok.pos, tok.line)?;
    let cs = chars_of(tok.value.as_str());
    let parts = decompose_with_fuel(cs.as_slice(), tok.spans.as_slice(), fuel)?;
    Ok(Node::empty(NodeKind::Word { parts, value: tok.value, spans: tok.spans }))
}

/// A `Word` node for a synthetic value (no lexer token).
pub fn word_node(value: &[char]) -> (r: Node)
    ensures
        r.kind is Word,
        r.kind->Word_value@ == value@,
        r.kind->Word_spans@.len() == 0,
        r.kind->Word_parts@.len() == 1,
        r.kind->Word_parts@[0].kind is WordLiteral,
        r.kind->Word_parts@[0].kind->WordLiteral_value@ == value@,
        r.span.start == 0 && r.span.end == 0,
{
    Node::empty(NodeKind::Word {
        parts: decompose_word_literal(value),
        value: string_from_chars(value),
        spans: Vec::new(),
    })
}

/// A `CondTerm` node from a lexer token.
pub fn cond_term_from_token(tok: Token) -> (r: Node)
    ensures
        r.kind is CondTerm,
        r.kind->CondTerm_value == tok.value,
{
    Node::empty(NodeKind::CondTerm { value: tok.value, spans: tok.spans })
}

/// `s` is one or two ASCII digits.
pub open spec fn spec_is_fd_number(s: Seq<char>) -> bool {
    1 <= s.len() <= 2 && forall|i: int| 0 <= i < s.len() ==> '0' <= #[trigger] s[i] <= '9'
}

/// True if the string is a valid file descriptor number (one or two digits).
pub fn is_fd_number(s: &String) -> (r: bool)
    ensures
        r == spec_is_fd_number(s@),
{
    let cs = chars_of(s.as_str());
    let n = cs.len();
    if n == 0 || n > 2 {
        return false;
    }
    let mut i: usize = 0;
    while i < n
        invariant
            i <= n,
            n == cs@.len(),
            cs@ == s@,
            forall|k: int| 0 <= k < i ==> '0' <= #[trigger] cs@[k] <= '9',
        decreases n - i,
    {
        if !('0' <= cs[i] && cs[i] <= '9') {
            assert(!('0' <= s@[i as int] <= '9'));
            return false;
        }
        i = i + 1;
    }
    true
}

/// `s` is `{name}` for a bash variable name.
pub open spec fn spec_is_varfd(s: Seq<char>) -> bool {
    &&& s.len() >= 3
    &&& s[0] == '{'
    &&& s.last() == '}'
    &&& crate::lexer::words::is_name_start(s[1])
    &&& forall|i: int| 1 <= i < s.len() - 1 ==> crate::lexer::words::is_name_char(#[trigger] s[i])
}

/// True if the string is a variable fd reference like `{varname}`.
pub fn is_varfd(s: &String) -> (r: bool)
    ensures
        r == spec_is_varfd(s@),
{
    let cs = chars_of(s.as_str());
    let n = cs.len();
    if n < 3 || cs[0] != '{' || cs[n - 1] != '}' {
        return false;
    }
    if !crate::lexer::words::name_start(cs[1]) {
        return false;
    }
    let mut i: usize = 1;
    while i < n - 1
        invariant
            1 <= i <= n - 1,
            n == cs@.len(),
            cs@ == s@,
            forall|k: int| 1 <= k < i ==> crate::lexer::words::is_name_char(#[trigger] cs@[k]),
        decreases n - 1 - i,
    {
        if !crate::lexer::words::name_char(cs[i]) {
            assert(!crate::lexer::words::is_name_char(s@[i as int]));
            return false;
        }
        i = i + 1;
    }
    true
}

/// The binary operators of `[[ ]]`.
pub open spec fn spec_is_cond_binary_op(s: Seq<char>) -> bool {
    s == seq!['=', '='] || s == seq!['!', '='] || s == seq!['=', '~'] || s == seq!['<']
        || s == seq!['>'] || s == seq!['-', 'e', 'q'] || s == seq!['-', 'n', 'e']
        || s == seq!['-', 'l', 't'] || s == seq!['-', 'l', 'e'] || s == seq!['-', 'g', 't']
        || s == seq!['-', 'g', 'e'] || s == seq!['-', 'n', 't'] || s == seq!['-', 'o', 't']
        || s == seq!['-', 'e', 'f'] || s == seq!['=']
}

/// True if the string is a conditional binary operator.
pub fn is_cond_binary_op(s: &String) -> (r: bool)
    ensures
        r == spec_is_cond_binary_op(s@),
{
    let cs = chars_of(s.as_str());
    let c = cs.as_slice();
    eq2(c, '=', '=') || eq2(c, '!', '=') || eq2(c, '=', '~') || eq1(c, '<') || eq1(c, '>')
        || eq3(c, '-', 'e', 'q') || eq3(c, '-', 'n', 'e') || eq3(c, '-', 'l', 't')
        || eq3(c, '-', 'l', 'e') || eq3(c, '-', 'g', 't') || eq3(c, '-', 'g', 'e')
        || eq3(c, '-', 'n', 't') || eq3(c, '-', 'o', 't') || eq3(c, '-', 'e', 'f') || eq1(c, '=')
}

/// Redirection operator token types.
pub open spec fn spec_is_redirect_op_kind(k: TokenType) -> bool {
    match k {
        TokenType::Less | TokenType::Greater | TokenType::DoubleGreater | TokenType::LessAnd
        | TokenType::GreaterAnd | TokenType::LessGreater | TokenType::GreaterPipe
        | TokenType::AndGreater | TokenType::AndDoubleGreater | TokenType::DoubleLess
        | TokenType::DoubleLessDash | TokenType::TripleLess => true,
        _ => false,
    }
}

/// True for redirection operator token types.
pub fn is_redirect_op_kind(k: TokenType) -> (r: bool)
    ensures
        r == spec_is_redirect_op_kind(k),
{
    match k {
        TokenType::Less | TokenType::Greater | TokenType::DoubleGreater | TokenType::LessAnd
        | TokenType::GreaterAnd | TokenType::LessGreater | TokenType::GreaterPipe
        | TokenType::AndGreater | TokenType::AndDoubleGreater | TokenType::DoubleLess
        | TokenType::DoubleLessDash | TokenType::TripleLess => true,
        _ => false,
    }
}

/// Adds `2>&1` to the last command of a pipeline (for `|&`) when it is a
/// simple command; false when there is no such command.
pub fn add_stderr_redirect(commands: &mut Vec<Node>) -> (r: bool)
    ensures
        final(commands)@.len() == old(commands)@.len(),
        r <==> (old(commands)@.len() > 0 && old(commands)@.last().kind is Command),
        !r ==> final(commands)@ == old(commands)@,
{
    let n = commands.len();
    if n == 0 {
        return false;
    }
    let last = commands.pop().unwrap();
    let Node { kind, span } = last;
    match kind {
        NodeKind::Command { assignments, words, redirects } => {
            let mut redirects = redirects;
            redirects.push(make_stderr_redirect());
            commands.push(Node { kind: NodeKind::Command { assignments, words, redirects }, span });
            true
        }
        other => {
            commands.push(Node { kind: other, span });
            assert(commands@ =~= old(commands)@);
            false
        }
    }
}

/// A `(redirect ">&" 1)` node with fd 2, as written for `|&`.
pub fn make_stderr_redirect() -> (r: Node)
    ensures
        r.kind is Redirect,
        r.kind->Redirect_fd == 2,
{
    Node::empty(NodeKind::Redirect {
        op: ">&".to_string(),
        target: Box::new(Node::empty(NodeKind::Word {
            value: "1".to_string(),
            parts: vec![Node::empty(NodeKind::WordLiteral { value: "1".to_string() })],
            spans: Vec::new(),
        })),
        fd: 2,
        varfd: None,
    })
}

/// `b`'s queue of here-document bodies is what is left of `a`'s after
/// bodies were taken from its front.
pub open spec fn takes_front(a: Lexer, b: Lexer) -> bool {
    let x = a.heredoc_contents@;
    let y = b.heredoc_contents@;
    &&& y.len() <= x.len()
    &&& forall|i: int| 0 <= i < y.len() ==> #[trigger] y[i] == x[i + (x.len() - y.len())]
}

/// The number of here-documents with an empty body in `n`, counting those
/// nested in the commands, lists, pipelines and compound commands that
/// hold them.
pub open spec fn heredoc_slots(n: Node) -> nat
    decreases n, 1int,
{
    match n.kind {
        NodeKind::HereDoc { content, .. } => if content@.len() == 0 { 1 } else { 0 },
        NodeKind::Command { assignments, words, redirects } =>
            slots_seq(assignments@) + slots_seq(words@) + slots_seq(redirects@),
        NodeKind::Pipeline { commands, .. } => slots_seq(commands@),
        NodeKind::List { items } => slots_items(items@),
        NodeKind::If { condition, then_body, else_body, redirects } =>
            heredoc_slots(*condition) + heredoc_slots(*then_body)
                + (match else_body { Some(e) => heredoc_slots(*e), None => 0 }) + slots_seq(redirects@),
        NodeKind::While { condition, body, redirects } =>
            heredoc_slots(*condition) + heredoc_slots(*body) + slots_seq(redirects@),
        NodeKind::Until { condition, body, redirects } =>
            heredoc_slots(*condition) + heredoc_slots(*body) + slots_seq(redirects@),
        NodeKind::Subshell { body, redirects } => heredoc_slots(*body) + slots_seq(redirects@),
        NodeKind::BraceGroup { body, redirects } => heredoc_slots(*body) + slots_seq(redirects@),
        NodeKind::For { body, redirects, .. } => heredoc_slots(*body) + slots_seq(redirects@),
        NodeKind::Select { body, redirects, .. } => heredoc_slots(*body) + slots_seq(redirects@),
        NodeKind::Case { patterns, redirects, .. } => slots_patterns(patterns@) + slots_seq(redirects@),
        NodeKind::Negation { pipeline } => heredoc_slots(*pipeline),
        NodeKind::Time { pipeline, .. } => heredoc_slots(*pipeline),
        NodeKind::Function { body, .. } => heredoc_slots(*body),
        NodeKind::Coproc { command, .. } => heredoc_slots(*command),
        _ => 0,
    }
}

/// `heredoc_slots` summed over nodes.
pub open spec fn slots_seq(s: Seq<Node>) -> nat
    decreases s, 0int,
{
    if s.len() == 0 { 0 } else { slots_seq(s.drop_last()) + heredoc_slots(s.last()) }
}

/// `heredoc_slots` summed over the commands of list items.
pub open spec fn slots_items(s: Seq<ListItem>) -> nat
    decreases s, 0int,
{
    if s.len() == 0 { 0 } else { slots_items(s.drop_last()) + heredoc_slots(s.last().command) }
}

/// `heredoc_slots` summed over the bodies of case clauses.
pub open spec fn slots_patterns(s: Seq<CasePattern>) -> nat
    decreases s, 0int,
{
    if s.len() == 0 {
        0
    } else {
        slots_patterns(s.drop_last()) + (match s.last().body { Some(b) => heredoc_slots(b), None => 0 })
    }
}

/// `k` bodies were taken from a queue of `q` for `h` empty slots: as many
/// as there are slots, or the whole queue when it is shorter.
pub open spec fn took(q: nat, k: int, h: nat) -> bool {
    k == (if h <= q { h as int } else { q as int })
}

/// Fills empty here-document bodies in `node` from the lexer's queue, in
/// source order; with the queue empty there is nothing to fill.
pub fn fill_heredoc_contents(node: Node, lexer: &mut Lexer) -> (r: Result<Node>)
    requires
        old(lexer).wf(),
    ensures
        same_source(*old(lexer), *final(lexer)),
        takes_front(*old(lexer), *final(lexer)),
        r is Ok ==> r->Ok_0.span == node.span,
        r is Err ==> final(lexer).fuel.budget == 0,
        r is Ok && node.kind is HereDoc ==> r->Ok_0.kind is HereDoc
            && (node.kind->HereDoc_content@.len() > 0 || old(lexer).heredoc_contents@.len() == 0
                ==> r->Ok_0.kind == node.kind)
            && (node.kind->HereDoc_content@.len() == 0 && old(lexer).heredoc_contents@.len() > 0
                ==> r->Ok_0.kind->HereDoc_content == old(lexer).heredoc_contents@[0]),
        r is Ok ==> took(old(lexer).heredoc_contents@.len(), old(lexer).heredoc_contents@.len() - final(lexer).heredoc_contents@.len(), heredoc_slots(node)),
        old(lexer).heredoc_contents@.len() == 0 ==> r == Ok::<Node, RableError>(node) && *final(lexer) == *old(lexer),
    decreases old(lexer).fuel.budget,
{
    if lexer.heredoc_contents.len() == 0 {
        return Ok(node);
    }
    lexer.tick()?;
    let Node { kind, span } = node;
    let kind = match kind {
        NodeKind::HereDoc { delimiter, content, strip_tabs, quoted, fd, complete } => {
            let content = if content.as_str().is_empty() {
                match lexer.take_heredoc_content() {
                    Some(c) => c,
                    None => content,
                }
            } else {
                content
            };
            NodeKind::HereDoc { delimiter, content, strip_tabs, quoted, fd, complete }
        }
        NodeKind::Command { assignments, words, redirects } => {
            let assignments = fill_each(assignments, lexer)?;
            let words = fill_each(words, lexer)?;
            let redirects = fill_each(redirects, lexer)?;
            NodeKind::Command { assignments, words, redirects }
        }
        NodeKind::Pipeline { commands, separators } => {
            let commands = fill_each(commands, lexer)?;
            NodeKind::Pipeline { commands, separators }
        }
        NodeKind::List { items } => {
            let items = fill_items(items, lexer)?;
            NodeKind::List { items }
        }
        NodeKind::If { condition, then_body, else_body, redirects } => {
            let condition = fill_heredoc_contents(*condition, lexer)?;
            let then_body = fill_heredoc_contents(*then_body, lexer)?;
            let else_body = match else_body {
                Some(e) => Some(Box::new(fill_heredoc_contents(*e, lexer)?)),
                None => None,
            };
            let redirects = fill_each(redirects, lexer)?;
            NodeKind::If { condition: Box::new(condition), then_body: Box::new(then_body), else_body, redirects }
        }
        NodeKind::While { condition, body, redirects } => {
            let condition = fill_heredoc_contents(*condition, lexer)?;
            let body = fill_heredoc_contents(*body, lexer)?;
            let redirects = fill_each(redirects, lexer)?;
            NodeKind::While { condition: Box::new(condition), body: Box::new(body), redirects }
        }
        NodeKind::Until { condition, body, redirects } => {
            let condition = fill_heredoc_contents(*condition, lexer)?;
            let body = fill_heredoc_contents(*body, lexer)?;
            let redirects = fill_each(redirects, lexer)?;
            NodeKind::Until { condition: Box::new(condition), body: Box::new(body), redirects }
        }
        NodeKind::Subshell { body, redirects } => {
            let body = fill_heredoc_contents(*body, lexer)?;
            let redirects = fill_each(redirects, lexer)?;
            NodeKind::Subshell { body: Box::new(body), redirects }
        }
        NodeKind::BraceGroup { body, redirects } => {
            let body = fill_heredoc_contents(*body, lexer)?;
            let redirects = fill_each(redirects, lexer)?;
            NodeKind::BraceGroup { body: Box::new(body), redirects }
        }
        NodeKind::For { var, words, body, redirects } => {
            let body = fill_heredoc_contents(*body, lexer)?;
            let redirects = fill_each(redirects, lexer)?;
            NodeKind::For { var, words, body: Box::new(body), redirects }
        }
        NodeKind::Select { var, words, body, redirects } => {
            let body = fill_heredoc_contents(*body, lexer)?;
            let redirects = fill_each(redirects, lexer)?;
            NodeKind::Select { var, words, body: Box::new(body), redirects }
        }
        NodeKind::Case { word, patterns, redirects } => {
            let patterns = fill_patterns(patterns, lexer)?;
            let redirects = fill_each(redirects, lexer)?;
            NodeKind::Case { word, patterns, redirects }
        }
        NodeKind::Negation { pipeline } => {
            let pipeline = fill_heredoc_contents(*pipeline, lexer)?;
            NodeKind::Negation { pipeline: Box::new(pipeline) }
        }
        NodeKind::Time { pipeline, posix } => {
            let pipeline = fill_heredoc_contents(*pipeline, lexer)?;
            NodeKind::Time { pipeline: Box::new(pipeline), posix }
        }
        NodeKind::Function { name, body } => {
            let body = fill_heredoc_contents(*body, lexer)?;
            NodeKind::Function { name, body: Box::new(body) }
        }
        NodeKind::Coproc { name, command } => {
            let command = fill_heredoc_contents(*command, lexer)?;
            NodeKind::Coproc { name, command: Box::new(command) }
        }
        other => other,
    };
    Ok(Node { kind, span })
}

/// Fills here-document bodies in each node, in order.
pub fn fill_each(nodes: Vec<Node>, lexer: &mut Lexer) -> (r: Result<Vec<Node>>)
    requires
        old(lexer).wf(),
    ensures
        takes_front(*old(lexer), *final(lexer)),
        same_source(*old(lexer), *final(lexer)),
        r is Err ==> final(lexer).fuel.budget == 0,
        r matches Ok(v) ==> v@.len() == nodes@.len()
            && forall|i: int| 0 <= i < v@.len() ==> #[trigger] v@[i].span == nodes@[i].span,
        r is Ok ==> took(old(lexer).heredoc_contents@.len(), old(lexer).heredoc_contents@.len() - final(lexer).heredoc_contents@.len(), slots_seq(nodes@)),
    decreases old(lexer).fuel.budget,
{
    lexer.tick()?;
    let ghost orig = nodes@;
    let mut nodes = nodes;
    let mut out: Vec<Node> = Vec::new();
    while nodes.len() > 0
        invariant
            same_source(*old(lexer), *lexer),
            takes_front(*old(lexer), *lexer),
            lexer.fuel.budget < old(lexer).fuel.budget,
            out@.len() + nodes@.len() == orig.len(),
            nodes@ == orig.subrange(out@.len() as int, orig.len() as int),
            forall|i: int| 0 <= i < out@.len() ==> #[trigger] out@[i].span == orig[i].span,
            took(old(lexer).heredoc_contents@.len(), old(lexer).heredoc_contents@.len() - lexer.heredoc_contents@.len(), slots_seq(orig.subrange(0, out@.len() as int))),
        decreases nodes.len(),
    {
        let ghost k = out@.len();
        let n = nodes.remove(0);
        assert(nodes@ =~= orig.subrange(k as int + 1, orig.len() as int));
        proof {
            assert(orig.subrange(0, k as int + 1).drop_last() =~= orig.subrange(0, k as int));
            assert(orig.subrange(0, k as int + 1).last() == orig[k as int]);
        }
        out.push(fill_heredoc_contents(n, lexer)?);
    }
    assert(orig.subrange(0, orig.len() as int) =~= orig);
    Ok(out)
}

fn fill_items(items: Vec<ListItem>, lexer: &mut Lexer) -> (r: Result<Vec<ListItem>>)
    requires
        old(lexer).wf(),
    ensures
        takes_front(*old(lexer), *final(lexer)),
        same_source(*old(lexer), *final(lexer)),
        r is Err ==> final(lexer).fuel.budget == 0,
        r matches Ok(v) ==> v@.len() == items@.len()
            && forall|i: int| 0 <= i < v@.len() ==> #[trigger] v@[i].operator == items@[i].operator
                && v@[i].command.span == items@[i].command.span,
        r is Ok ==> took(old(lexer).heredoc_contents@.len(), old(lexer).heredoc_contents@.len() - final(lexer).heredoc_contents@.len(), slots_items(items@)),
    decreases old(lexer).fuel.budget,
{
    lexer.tick()?;
    let ghost orig = items@;
    let mut items = items;
    let mut out: Vec<ListItem> = Vec::new();
    while items.len() > 0
        invariant
            same_source(*old(lexer), *lexer),
            takes_front(*old(lexer), *lexer),
            lexer.fuel.budget < old(lexer).fuel.budget,
            out@.len() + items@.len() == orig.len(),
            items@ == orig.subrange(out@.len() as int, orig.len() as int),
            forall|i: int| 0 <= i < out@.len() ==> #[trigger] out@[i].operator == orig[i].operator
                && out@[i].command.span == orig[i].command.span,
            took(old(lexer).heredoc_contents@.len(), old(lexer).heredoc_contents@.len() - lexer.heredoc_contents@.len(), slots_items(orig.subrange(0, out@.len() as int))),
        decreases items.len(),
    {
        let ghost k = out@.len();
        let ListItem { command, operator } = items.remove(0);
        assert(items@ =~= orig.subrange(k as int + 1, orig.len() as int));
        proof {
            assert(orig.subrange(0, k as int + 1).drop_last() =~= orig.subrange(0, k as int));
            assert(orig.subrange(0, k as int + 1).last() == orig[k as int]);
        }
        let command = fill_heredoc_contents(command, lexer)?;
        out.push(ListItem { command, operator });
    }
    assert(orig.subrange(0, orig.len() as int) =~= orig);
    Ok(out)
}

#[verifier::rlimit(40)]
#[verifier::spinoff_prover]
fn fill_patterns(patterns: Vec<CasePattern>, lexer: &mut Lexer) -> (r: Result<Vec<CasePattern>>)
    requires
        old(lexer).wf(),
    ensures
        takes_front(*old(lexer), *final(lexer)),
        same_source(*old(lexer), *final(lexer)),
        r is Err ==> final(lexer).fuel.budget == 0,
        r matches Ok(v) ==> v@.len() == patterns@.len()
            && forall|i: int| 0 <= i < v@.len() ==> #[trigger] v@[i].patterns == patterns@[i].patterns
                && v@[i].terminator == patterns@[i].terminator
                && (v@[i].body is Some <==> patterns@[i].body is Some),
        r is Ok ==> took(old(lexer).heredoc_contents@.len(), old(lexer).heredoc_contents@.len() - final(lexer).heredoc_contents@.len(), slots_patterns(patterns@)),
    decreases old(lexer).fuel.budget,
{
    lexer.tick()?;
    let ghost orig = patterns@;
    let mut patterns = patterns;
    let mut out: Vec<CasePattern> = Vec::new();
    while patterns.len() > 0
        invariant
            same_source(*old(lexer), *lexer),
            takes_front(*old(lexer), *lexer),
            lexer.fuel.budget < old(lexer).fuel.budget,
            out@.len() + patterns@.len() == orig.len(),
            patterns@ == orig.subrange(out@.len() as int, orig.len() as int),
            forall|i: int| 0 <= i < out@.len() ==> #[trigger] out@[i].patterns == orig[i].patterns
                && out@[i].terminator == orig[i].terminator
                && (out@[i].body is Some <==> orig[i].body is Some),
            took(old(lexer).heredoc_contents@.len(), old(lexer).heredoc_contents@.len() - lexer.heredoc_contents@.len(), slots_patterns(orig.subrange(0, out@.len() as int))),
        decreases patterns.len(),
    {
        let ghost k = out@.len();
        let cp = patterns.remove(0);
        let ghost g = cp;
        assert(g == orig[k as int]);
        assert(patterns@ =~= orig.subrange(k as int + 1, orig.len() as int));
        proof {
            assert(orig.subrange(0, k as int + 1).drop_last() =~= orig.subrange(0, k as int));
            assert(orig.subrange(0, k as int + 1).last() == orig[k as int]);
        }
        let CasePattern { patterns: pats, body, terminator } = cp;
        assert(pats == g.patterns && body == g.body && terminator == g.terminator);
        let ghost q0 = lexer.heredoc_contents@.len();
        let body = match body {
            Some(b) => Some(fill_heredoc_contents(b, lexer)?),
            None => None,
        };
        assert(took(q0, q0 - lexer.heredoc_contents@.len(), match g.body { Some(b) => heredoc_slots(b), None => 0 }));
        let ghost before = out@;
        let cp2 = CasePattern { patterns: pats, body, terminator };
        let ghost c2 = cp2;
        assert(c2.patterns == g.patterns && c2.terminator == g.terminator && (c2.body is Some <==> g.body is Some));
        out.push(cp2);
        assert(out@[k as int] == c2);
        assert(out@[k as int].patterns == orig[k as int].patterns);
        assert forall|i: int| 0 <= i < out@.len() implies #[trigger] out@[i].patterns == orig[i].patterns
            && out@[i].terminator == orig[i].terminator
            && (out@[i].body is Some <==> orig[i].body is Some) by {
            if i < k {
                assert(out@[i] == before[i]);
            }
        }
    }
    assert(orig.subrange(0, orig.len() as int) =~= orig);
    Ok(out)
}

} // verus!
