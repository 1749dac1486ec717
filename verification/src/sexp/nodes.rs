//! The S-expression form of each kind of node.
use vstd::prelude::*;
use crate::ast::{CasePattern, ListItem, ListOperator, Node, NodeKind};
use crate::text::{chars_of, extend_chars, extends, push_str, push_string, string_from_chars};
use super::segments::write_segments;
use super::word::{seg_views, segments_from_spans, WordSegment};
use super::write_escaped_word;
use super::escaped;
use super::model::{all_digits, cat, closers, cond_term_value, is_fd_op_spec, join_text, kids_text, list_join, list_mid, list_op_name_spec,
    list_opens, list_ops, list_tails, list_text, lit, pattern_text, cases_text, pipe_body, pipe_groups, pipe_last_group, pipe_piece,
    pipe_starts, pipe_text, quoted, sexp_text, word_target_text, word_text, cond_term_text, word_segments, arith_text,
    arith_rest_text, leaf_text, command_text, compound_text, loop_text, case_text, cond_text};

verus! {

/// `b` lies strictly inside `a`.
pub open spec fn below(a: Node, b: Node) -> bool {
    decreases_to!(a => b)
}

/// Every node of a vector held by a field of `parent` lies below it.
pub proof fn lemma_vec_below(parent: Node, v: Vec<Node>)
    requires
        decreases_to!(parent.kind => v),
    ensures
        forall|i: int| 0 <= i < v@.len() ==> #[trigger] below(parent, v@[i]),
{
    assert forall|i: int| 0 <= i < v@.len() implies #[trigger] below(parent, v@[i]) by {
        vstd::std_specs::vec::axiom_vec_index_decreases(v, i);
        assert(decreases_to!(parent => parent.kind));
    }
}

/// Every command of a list held by `parent` lies below it.
pub proof fn lemma_items_below(parent: Node, v: Vec<ListItem>)
    requires
        decreases_to!(parent.kind => v),
    ensures
        forall|i: int| 0 <= i < v@.len() ==> #[trigger] below(parent, v@[i].command),
{
    assert forall|i: int| 0 <= i < v@.len() implies #[trigger] below(parent, v@[i].command) by {
        vstd::std_specs::vec::axiom_vec_index_decreases(v, i);
        assert(decreases_to!(parent => parent.kind));
        assert(decreases_to!(v@[i] => v@[i].command));
    }
}

/// Every pattern word and body of the clauses held by `parent` lies below it.
pub proof fn lemma_patterns_below(parent: Node, v: Vec<CasePattern>)
    requires
        decreases_to!(parent.kind => v),
    ensures
        forall|i: int, j: int| 0 <= i < v@.len() && 0 <= j < v@[i].patterns@.len()
            ==> #[trigger] below(parent, v@[i].patterns@[j]),
        forall|i: int| 0 <= i < v@.len() && v@[i].body is Some ==> #[trigger] below(parent, v@[i].body->0),
{
    assert forall|i: int, j: int| 0 <= i < v@.len() && 0 <= j < v@[i].patterns@.len()
        implies #[trigger] below(parent, v@[i].patterns@[j]) by {
        vstd::std_specs::vec::axiom_vec_index_decreases(v, i);
        assert(decreases_to!(parent => parent.kind));
        let p = v@[i];
        assert(decreases_to!(p => p.patterns));
        vstd::std_specs::vec::axiom_vec_index_decreases(p.patterns, j);
    }
    assert forall|i: int| 0 <= i < v@.len() && v@[i].body is Some implies #[trigger] below(parent, v@[i].body->0) by {
        vstd::std_specs::vec::axiom_vec_index_decreases(v, i);
        assert(decreases_to!(parent => parent.kind));
        let p = v@[i];
        assert(decreases_to!(p => p.body));
    }
}

/// Appends the S-expression name of a list operator.
pub fn write_list_op_name(out: &mut Vec<char>, op: ListOperator)
    ensures
        final(out)@ == old(out)@ + list_op_name_spec(op),
{
    let name: Vec<char> = match op {
        ListOperator::And => vec!['a', 'n', 'd'],
        ListOperator::Or => vec!['o', 'r'],
        ListOperator::Semi => vec!['s', 'e', 'm', 'i'],
        ListOperator::Background => vec!['b', 'a', 'c', 'k', 'g', 'r', 'o', 'u', 'n', 'd'],
    };
    assert(name@ =~= list_op_name_spec(op));
    extend_chars(out, name.as_slice());
}

/// Computes `is_fd_op_spec`.
pub fn is_fd_op(op: &[char]) -> (r: bool)
    ensures
        r == is_fd_op_spec(op@),
{
    let n = op.len();
    (n >= 2 && op[0] == '>' && op[1] == '&') || (n >= 2 && op[0] == '<' && op[1] == '&')
        || (n >= 1 && op[n - 1] == '&') || (n >= 2 && op[n - 2] == '&' && op[n - 1] == '-')
}

/// Every character is an ASCII digit.
pub fn all_ascii_digits(s: &[char]) -> (r: bool)
    ensures
        r == all_digits(s@),
{
    let mut i: usize = 0;
    while i < s.len()
        invariant
            i <= s@.len(),
            forall|k: int| 0 <= k < i ==> '0' <= #[trigger] s@[k] <= '9',
        decreases s.len() - i,
    {
        if !('0' <= s[i] && s[i] <= '9') {
            return false;
        }
        i = i + 1;
    }
    true
}

/// Appends ` n` for each node.
fn write_children(nodes: &Vec<Node>, out: &mut Vec<char>, b: usize, Ghost(parent): Ghost<Node>)
    requires
        forall|i: int| 0 <= i < nodes@.len() ==> #[trigger] below(parent, nodes@[i]),
    ensures
        extends(old(out)@, final(out)@),
        kids_text(nodes@) matches Some(t) ==> final(out)@ == old(out)@ + t,
    decreases b, 1int, parent, 1int,
{
    let mut i: usize = 0;
    while i < nodes.len()
        invariant
            i <= nodes@.len(),
            extends(old(out)@, out@),
            forall|k: int| 0 <= k < nodes@.len() ==> #[trigger] below(parent, nodes@[k]),
            kids_text(nodes@.subrange(0, i as int)) matches Some(t) ==> out@ == old(out)@ + t,
        decreases nodes.len() - i,
    {
        assert(below(parent, nodes@[i as int]));
        let ghost before = out@;
        out.push(' ');
        write_node(&nodes[i], out, b);
        proof {
            let pre = nodes@.subrange(0, i as int);
            let cur = nodes@.subrange(0, i + 1);
            assert(cur.drop_last() =~= pre);
            assert(cur.last() == nodes@[i as int]);
            if kids_text(cur) is Some {
                assert(out@ =~= old(out)@ + kids_text(cur)->0);
            }
        }
        i = i + 1;
    }
    assert(nodes@.subrange(0, nodes@.len() as int) =~= nodes@);
}

/// Pipelines nest to the right: `(pipe a (pipe b c))`. A redirect among
/// the commands stays with the command before it.
fn write_pipeline(commands: &Vec<Node>, out: &mut Vec<char>, b: usize, Ghost(parent): Ghost<Node>)
    requires
        forall|i: int| 0 <= i < commands@.len() ==> #[trigger] below(parent, commands@[i]),
    ensures
        extends(old(out)@, final(out)@),
        pipe_text(commands@) matches Some(t) ==> final(out)@ == old(out)@ + t,
    decreases b, 1int, parent, 1int,
{
    let ghost s = commands@;
    let n = commands.len();
    if n == 0 {
        return;
    }
    if n == 1 {
        assert(below(parent, commands@[0]));
        write_node(&commands[0], out, b);
        return;
    }
    let mut groups: usize = 0;
    let mut i: usize = 0;
    while i < n
        invariant
            i <= n,
            n == commands@.len(),
            s == commands@,
            groups <= i,
            groups == pipe_groups(s, i as int),
            i > 0 ==> groups >= 1,
            extends(old(out)@, out@),
            forall|k: int| 0 <= k < commands@.len() ==> #[trigger] below(parent, commands@[k]),
            pipe_body(s, i as int) matches Some(t) ==> out@ == old(out)@ + t,
        decreases n - i,
    {
        let ghost before = out@;
        let starts_group = i == 0 || !matches!(commands[i].kind, NodeKind::Redirect { .. });
        let last_group = {
            let mut j = i + 1;
            while j < n && matches!(commands[j].kind, NodeKind::Redirect { .. })
                invariant
                    i < j <= n,
                    n == commands@.len(),
                    forall|k: int| i < k < j ==> (#[trigger] commands@[k]).kind is Redirect,
                decreases n - j,
            {
                j = j + 1;
            }
            j == n
        };
        assert(starts_group == pipe_starts(s, i as int));
        assert(last_group == pipe_last_group(s, i as int));
        if starts_group {
            if i > 0 {
                out.push(' ');
            }
            if !last_group {
                push_str(out, "(pipe ");
            }
            groups = groups + 1;
        } else {
            out.push(' ');
        }
        assert(out@ =~= before + pipe_piece(s, i as int));
        assert(below(parent, commands@[i as int]));
        write_node(&commands[i], out, b);
        proof {
            if pipe_body(s, i + 1) is Some {
                assert(out@ =~= old(out)@ + pipe_body(s, i + 1)->0);
            }
        }
        i = i + 1;
    }
    let ghost body_out = out@;
    let mut g: usize = 1;
    while g < groups
        invariant
            1 <= g <= groups,
            extends(old(out)@, body_out),
            out@ == body_out + closers(g - 1),
        decreases groups - g,
    {
        out.push(')');
        assert(closers(g as int) =~= closers(g - 1).push(')'));
        g = g + 1;
    }
    assert(extends(old(out)@, out@));
}

/// The commands of a list one after the other, separated by spaces.
fn write_list_join(items: &Vec<ListItem>, out: &mut Vec<char>, b: usize, Ghost(parent): Ghost<Node>)
    requires
        forall|i: int| 0 <= i < items@.len() ==> #[trigger] below(parent, items@[i].command),
    ensures
        extends(old(out)@, final(out)@),
        list_join(items@, items@.len() as int) matches Some(t) ==> final(out)@ == old(out)@ + t,
    decreases b, 1int, parent, 0int,
{
    let ghost s = items@;
    let n = items.len();
    let mut k: usize = 0;
    while k < n
        invariant
            k <= n,
            n == items@.len(),
            s == items@,
            extends(old(out)@, out@),
            forall|j: int| 0 <= j < items@.len() ==> #[trigger] below(parent, items@[j].command),
            list_join(s, k as int) matches Some(t) ==> out@ == old(out)@ + t,
        decreases n - k,
    {
        if k > 0 {
            out.push(' ');
        }
        assert(below(parent, items@[k as int].command));
        write_node(&items[k].command, out, b);
        proof {
            if list_join(s, k + 1) is Some {
                assert(out@ =~= old(out)@ + list_join(s, k + 1)->0);
            }
        }
        k = k + 1;
    }
}

/// The nested body of a list with `m2` operators between its commands:
/// `(op2 (op1 c0 c1) c2)`.
#[verifier::rlimit(100)]
fn write_list_nested(items: &Vec<ListItem>, ops: &Vec<ListOperator>, m2: usize, out: &mut Vec<char>, b: usize,
    Ghost(parent): Ghost<Node>)
    requires
        forall|i: int| 0 <= i < items@.len() ==> #[trigger] below(parent, items@[i].command),
        1 <= m2 < items@.len(),
        m2 <= ops@.len(),
    ensures
        extends(old(out)@, final(out)@),
        list_mid(items@, ops@, m2 as int) matches Some(t) ==> final(out)@ == old(out)@ + t,
    decreases b, 1int, parent, 0int,
{
    let ghost s = items@;
    let n = items.len();
    let mut k: usize = m2;
    while k > 1
        invariant
            1 <= k <= m2,
            m2 <= ops@.len(),
            out@ == old(out)@ + list_opens(ops@, m2 as int, k as int),
        decreases k,
    {
        k = k - 1;
        out.push('(');
        write_list_op_name(out, ops[k]);
        out.push(' ');
        assert(out@ =~= old(out)@ + list_opens(ops@, m2 as int, k as int));
    }
    out.push('(');
    write_list_op_name(out, ops[0]);
    out.push(' ');
    let ghost opened = out@;
    assert(below(parent, items@[0].command));
    write_node(&items[0].command, out, b);
    out.push(' ');
    assert(below(parent, items@[1].command));
    write_node(&items[1].command, out, b);
    out.push(')');
    let ghost head_out = out@;
    assert(extends(old(out)@, head_out));
    let mut k: usize = 1;
    while k < m2
        invariant
            1 <= k <= m2,
            m2 + 1 <= n,
            n == items@.len(),
            s == items@,
            extends(head_out, out@),
            forall|j: int| 0 <= j < items@.len() ==> #[trigger] below(parent, items@[j].command),
            list_tails(s, k as int) matches Some(t) ==> out@ == head_out + t,
        decreases m2 - k,
    {
        out.push(' ');
        assert(below(parent, items@[k + 1].command));
        write_node(&items[k + 1].command, out, b);
        out.push(')');
        proof {
            if list_tails(s, k + 1) is Some {
                assert(out@ =~= head_out + list_tails(s, k + 1)->0);
            }
        }
        k = k + 1;
    }
    proof {
        if list_mid(s, ops@, m2 as int) is Some {
            assert(out@ =~= old(out)@ + list_mid(s, ops@, m2 as int)->0);
        }
    }
}

/// Lists nest to the left: `(and (and a b) c)`; a trailing operator wraps
/// the whole list: `(background a)`.
#[verifier::spinoff_prover]
#[verifier::rlimit(40)]
fn write_list(items: &Vec<ListItem>, out: &mut Vec<char>, b: usize, Ghost(parent): Ghost<Node>)
    requires
        forall|i: int| 0 <= i < items@.len() ==> #[trigger] below(parent, items@[i].command),
    ensures
        extends(old(out)@, final(out)@),
        list_text(items@) matches Some(t) ==> final(out)@ == old(out)@ + t,
    decreases b, 1int, parent, 1int,
{
    let ghost s = items@;
    let n = items.len();
    let mut ops: Vec<ListOperator> = Vec::new();
    let mut i: usize = 0;
    while i < n
        invariant
            i <= n,
            n == items@.len(),
            s == items@,
            ops@.len() <= i,
            ops@ == list_ops(s.subrange(0, i as int)),
        decreases n - i,
    {
        proof {
            let cur = s.subrange(0, i + 1);
            assert(cur.drop_last() =~= s.subrange(0, i as int));
            assert(cur.last() == s[i as int]);
        }
        if let Some(op) = items[i].operator {
            ops.push(op);
        }
        i = i + 1;
    }
    assert(s.subrange(0, n as int) =~= s);
    let m = ops.len();
    if n == 1 && items[0].operator.is_none() {
        assert(below(parent, items@[0].command));
        write_node(&items[0].command, out, b);
        return;
    }
    if n == 1 && m == 1 {
        out.push('(');
        write_list_op_name(out, ops[0]);
        out.push(' ');
        assert(below(parent, items@[0].command));
        write_node(&items[0].command, out, b);
        out.push(')');
        proof {
            if list_text(s) is Some {
                assert(out@ =~= old(out)@ + list_text(s)->0);
            }
        }
        return;
    }
    if n <= 1 && m == 0 {
        proof {
            assert(n == 0);
            assert(old(out)@ + Seq::<char>::empty() =~= old(out)@);
        }
        return;
    }
    let trailing = n == m;
    let m2 = if trailing { m - 1 } else { m };
    if trailing {
        out.push('(');
        write_list_op_name(out, ops[m - 1]);
        out.push(' ');
    }
    let ghost pre_out = out@;
    if m2 == 0 {
        // Two or more commands and no operator between them: the commands
        // are written one after the other.
        write_list_join(items, out, b, Ghost(parent));
    } else {
        write_list_nested(items, &ops, m2, out, b, Ghost(parent));
    }
    let ghost mid_out = out@;
    if trailing {
        out.push(')');
    }
    proof {
        if list_text(s) is Some {
            assert(list_mid(s, ops@, m2 as int) is Some);
            assert(out@ =~= old(out)@ + list_text(s)->0);
        }
    }
}

/// `(pattern (w ...) body)`, with `()` for a clause without a body.
fn write_case_pattern(p: &CasePattern, out: &mut Vec<char>, b: usize, Ghost(parent): Ghost<Node>)
    requires
        forall|j: int| 0 <= j < p.patterns@.len() ==> #[trigger] below(parent, p.patterns@[j]),
        p.body is Some ==> below(parent, p.body->0),
    ensures
        extends(old(out)@, final(out)@),
        pattern_text(*p) matches Some(t) ==> final(out)@ == old(out)@ + t,
    decreases b, 1int, parent, 1int,
{
    let ghost s = p.patterns@;
    push_str(out, "(pattern (");
    let ghost start = out@;
    let mut j: usize = 0;
    while j < p.patterns.len()
        invariant
            j <= p.patterns@.len(),
            s == p.patterns@,
            extends(old(out)@, start),
            extends(start, out@),
            forall|k: int| 0 <= k < p.patterns@.len() ==> #[trigger] below(parent, p.patterns@[k]),
            join_text(s.subrange(0, j as int)) matches Some(t) ==> out@ == start + t,
        decreases p.patterns.len() - j,
    {
        if j > 0 {
            out.push(' ');
        }
        assert(below(parent, p.patterns@[j as int]));
        write_node(&p.patterns[j], out, b);
        proof {
            let cur = s.subrange(0, j + 1);
            assert(cur.drop_last() =~= s.subrange(0, j as int));
            assert(cur.last() == s[j as int]);
            if j == 0 {
                assert(cur[0] == s[0]);
            }
            if join_text(cur) is Some {
                assert(out@ =~= start + join_text(cur)->0);
            }
        }
        j = j + 1;
    }
    assert(s.subrange(0, s.len() as int) =~= s);
    out.push(')');
    match &p.body {
        Some(body) => {
            out.push(' ');
            write_node(body, out, b);
        }
        None => push_str(out, " ()"),
    }
    out.push(')');
    proof {
        if pattern_text(*p) is Some {
            assert(out@ =~= old(out)@ + pattern_text(*p)->0);
        }
    }
}

/// ` (in w ...)` for a `for`/`select` word list that is present.
fn write_in_list(words: &Option<Vec<Node>>, out: &mut Vec<char>, b: usize, Ghost(parent): Ghost<Node>)
    requires
        words is Some ==> forall|i: int| 0 <= i < words->0@.len() ==> #[trigger] below(parent, words->0@[i]),
    ensures
        extends(old(out)@, final(out)@),
        (match *words { Some(ws) => cat(lit(" (in"@), cat(kids_text(ws@), lit(seq![')']))), None => lit(Seq::empty()) })
            matches Some(t) ==> final(out)@ == old(out)@ + t,
    decreases b, 1int, parent, 2int,
{
    if let Some(ws) = words {
        push_str(out, " (in");
        write_children(ws, out, b, Ghost(parent));
        out.push(')');
        proof {
            if kids_text(ws@) is Some {
                assert(out@ =~= old(out)@ + (" (in"@ + kids_text(ws@)->0 + seq![')']));
            }
        }
    } else {
        assert(old(out)@ + Seq::<char>::empty() =~= old(out)@);
    }
}

/// `"value"` written as it stands.
fn write_quoted_raw(out: &mut Vec<char>, s: &String)
    ensures
        final(out)@ == old(out)@ + seq!['"'] + s@ + seq!['"'],
{
    out.push('"');
    push_string(out, s);
    out.push('"');
}

/// The `(redirect "op" target)` form.
fn write_redirect(op: &String, target: &Node, out: &mut Vec<char>, b: usize, Ghost(parent): Ghost<Node>)
    requires
        below(parent, *target),
    ensures
        extends(old(out)@, final(out)@),
        (match target.kind {
            NodeKind::Word { value, spans, .. } => word_target_text(op@, value@, spans@),
            _ => cat(lit("(redirect "@ + quoted(op@) + seq![' ']), cat(sexp_text(*target), lit(seq![')']))),
        }) matches Some(t) ==> final(out)@ == old(out)@ + t,
    decreases b, 1int, parent, 1int,
{
    push_str(out, "(redirect ");
    write_quoted_raw(out, op);
    out.push(' ');
    let ghost head = out@;
    assert(head == old(out)@ + "(redirect "@ + quoted(op@) + seq![' ']);
    match &target.kind {
        NodeKind::Word { value, spans, .. } => {
            let opc = chars_of(op.as_str());
            let v = chars_of(value.as_str());
            if is_fd_op(opc.as_slice()) && v.len() > 0 && all_ascii_digits(v.as_slice()) {
                extend_chars(out, v.as_slice());
                out.push(')');
                assert(out@ =~= old(out)@ + word_target_text(op@, value@, spans@)->0);
            } else if spans.len() > 0 {
                out.push('"');
                let segs = segments_from_spans(v.as_slice(), spans.as_slice());
                proof {
                    reveal(word_segments);
                }
                write_segments(&segs, out, b, false);
                out.push('"');
                out.push(')');
                proof {
                    if word_target_text(op@, value@, spans@) is Some {
                        assert(out@ =~= old(out)@ + word_target_text(op@, value@, spans@)->0);
                    }
                }
            } else {
                write_quoted_raw(out, value);
                out.push(')');
                assert(out@ =~= old(out)@ + word_target_text(op@, value@, spans@)->0);
            }
        }
        _ => {
            write_node(target, out, b);
            out.push(')');
            proof {
                if sexp_text(*target) is Some {
                    assert(out@ =~= old(out)@ + ("(redirect "@ + quoted(op@) + seq![' '] + sexp_text(*target)->0 + seq![')']));
                }
            }
        }
    }
}

/// `(word "...")` for a word: its segments, escaped.
fn write_word(value: &String, spans: &Vec<crate::lexer::word_builder::WordSpan>, out: &mut Vec<char>, b: usize)
    ensures
        extends(old(out)@, final(out)@),
        word_text(value@, spans@) matches Some(t) ==> final(out)@ == old(out)@ + t,
    decreases b, 0int, Node::empty_spec(), 3int,
{
    push_str(out, "(word \"");
    let v = chars_of(value.as_str());
    if spans.len() == 0 {
        write_escaped_word(out, v.as_slice());
    } else {
        let segs = segments_from_spans(v.as_slice(), spans.as_slice());
        proof {
            reveal(word_segments);
        }
        write_segments(&segs, out, b, true);
    }
    out.push('"');
    out.push(')');
    assert(word_text(value@, spans@) is Some ==> out@ =~= old(out)@ + word_text(value@, spans@)->0);
}

/// `(cond-term "...")`: a leading `$` of `$"..."` is dropped; text is
/// written as it stands, expansions as for redirect targets.
fn write_cond_term(value: &String, spans: &Vec<crate::lexer::word_builder::WordSpan>, out: &mut Vec<char>, b: usize)
    ensures
        extends(old(out)@, final(out)@),
        cond_term_text(value@, spans@) matches Some(t) ==> final(out)@ == old(out)@ + t,
    decreases b, 0int, Node::empty_spec(), 3int,
{
    let v = chars_of(value.as_str());
    let val: Vec<char> = if v.len() >= 2 && v[0] == '$' && v[1] == '"' {
        match crate::text::slice_chars(v.as_slice(), 1, v.len()) {
            Some(rest) => rest,
            None => Vec::new(),
        }
    } else {
        v
    };
    assert(val@ == cond_term_value(value@));
    push_str(out, "(cond-term \"");
    if spans.len() == 0 {
        extend_chars(out, val.as_slice());
    } else {
        let segs = segments_from_spans(val.as_slice(), spans.as_slice());
        proof {
            reveal(word_segments);
        }
        let mut all_literal = true;
        let mut k: usize = 0;
        while k < segs.len()
            invariant
                k <= segs@.len(),
                all_literal <==> forall|j: int| 0 <= j < k ==> (#[trigger] segs@[j]) is Literal,
            decreases segs.len() - k,
        {
            if !matches!(segs[k], WordSegment::Literal(_)) {
                all_literal = false;
            }
            k = k + 1;
        }
        proof {
            let sv = seg_views(segs@);
            if all_literal {
                assert forall|i: int| 0 <= i < sv.len() implies (#[trigger] sv[i]) is Literal by {
                    assert(segs@[i] is Literal);
                }
            } else {
                let j = choose|j: int| 0 <= j < k && !(segs@[j] is Literal);
                assert(!(sv[j] is Literal));
            }
        }
        if all_literal {
            extend_chars(out, val.as_slice());
        } else {
            write_segments(&segs, out, b, false);
        }
    }
    out.push('"');
    out.push(')');
    proof {
        if cond_term_text(value@, spans@) is Some {
            assert(out@ =~= old(out)@ + cond_term_text(value@, spans@)->0);
        }
    }
}

/// Appends `prefix param op arg }`, or `$param` when there is neither
/// operator nor argument.
fn write_param(out: &mut Vec<char>, prefix: &str, param: &String, op: &Option<String>, arg: &Option<String>)
    ensures
        final(out)@ == old(out)@ + super::param_text(prefix@, param@,
            match op { Some(o) => Some(o@), None => None },
            match arg { Some(a) => Some(a@), None => None }),
{
    if op.is_some() || arg.is_some() {
        push_str(out, prefix);
        push_string(out, param);
        let ghost mid = out@;
        match op {
            Some(o) => push_string(out, o),
            None => {}
        }
        match arg {
            Some(a) => push_string(out, a),
            None => {}
        }
        out.push('}');
    } else {
        out.push('$');
        push_string(out, param);
    }
    assert(out@ =~= old(out)@ + super::param_text(prefix@, param@,
        match op { Some(o) => Some(o@), None => None },
        match arg { Some(a) => Some(a@), None => None }));
}

/// Appends ` r` for each redirect.
fn write_redirects(redirects: &Vec<Node>, out: &mut Vec<char>, b: usize, Ghost(parent): Ghost<Node>)
    requires
        forall|i: int| 0 <= i < redirects@.len() ==> #[trigger] below(parent, redirects@[i]),
    ensures
        extends(old(out)@, final(out)@),
        kids_text(redirects@) matches Some(t) ==> final(out)@ == old(out)@ + t,
    decreases b, 1int, parent, 2int,
{
    write_children(redirects, out, b, Ghost(parent));
}

/// Appends the S-expression form of an arithmetic expansion, operand or operation.
#[verifier::spinoff_prover]
#[verifier::rlimit(100)]
fn write_arith_node(node: &Node, out: &mut Vec<char>, b: usize)
    requires
        node.kind is ArithmeticExpansion || node.kind is ArithNumber || node.kind is ArithVar || node.kind is ArithBinaryOp || node.kind is ArithUnaryOp || node.kind is ArithPreIncr || node.kind is ArithPostIncr || node.kind is ArithPreDecr || node.kind is ArithPostDecr,
    ensures
        extends(old(out)@, final(out)@),
        arith_text(*node) matches Some(t) ==> final(out)@ == old(out)@ + t,
    decreases b, 1int, *node, 3int,
{
    let ghost parent = *node;
    match &node.kind {
        NodeKind::ArithmeticExpansion { expression } => {
            push_str(out, "(arith");
            if let Some(e) = expression {
                out.push(' ');
                write_node(e, out, b);
            }
            out.push(')');
            proof { if arith_text(*node) is Some { assert(out@ =~= old(out)@ + arith_text(*node)->0) } }
        }
        NodeKind::ArithNumber { value } => {
            push_string(out, value);
            proof { if arith_text(*node) is Some { assert(out@ =~= old(out)@ + arith_text(*node)->0) } }
        }
        NodeKind::ArithVar { name } => {
            push_string(out, name);
            proof { if arith_text(*node) is Some { assert(out@ =~= old(out)@ + arith_text(*node)->0) } }
        }
        NodeKind::ArithBinaryOp { op, left, right } => {
            out.push('(');
            push_string(out, op);
            out.push(' ');
            write_node(left, out, b);
            out.push(' ');
            write_node(right, out, b);
            out.push(')');
            proof { if arith_text(*node) is Some { assert(out@ =~= old(out)@ + arith_text(*node)->0) } }
        }
        NodeKind::ArithUnaryOp { op, operand } => {
            out.push('(');
            push_string(out, op);
            out.push(' ');
            write_node(operand, out, b);
            out.push(')');
            proof { if arith_text(*node) is Some { assert(out@ =~= old(out)@ + arith_text(*node)->0) } }
        }
        NodeKind::ArithPreIncr { operand } => {
            push_str(out, "(pre++ ");
            write_node(operand, out, b);
            out.push(')');
            proof { if arith_text(*node) is Some { assert(out@ =~= old(out)@ + arith_text(*node)->0) } }
        }
        NodeKind::ArithPostIncr { operand } => {
            push_str(out, "(post++ ");
            write_node(operand, out, b);
            out.push(')');
            proof { if arith_text(*node) is Some { assert(out@ =~= old(out)@ + arith_text(*node)->0) } }
        }
        NodeKind::ArithPreDecr { operand } => {
            push_str(out, "(pre-- ");
            write_node(operand, out, b);
            out.push(')');
            proof { if arith_text(*node) is Some { assert(out@ =~= old(out)@ + arith_text(*node)->0) } }
        }
        NodeKind::ArithPostDecr { operand } => {
            push_str(out, "(post-- ");
            write_node(operand, out, b);
            out.push(')');
            proof { if arith_text(*node) is Some { assert(out@ =~= old(out)@ + arith_text(*node)->0) } }
        }
        _ => {}
    }
}

/// Appends the S-expression form of an assignment, a ternary, a comma or a subscript.
#[verifier::spinoff_prover]
#[verifier::rlimit(100)]
fn write_arith_rest(node: &Node, out: &mut Vec<char>, b: usize)
    requires
        node.kind is ArithAssign || node.kind is ArithTernary || node.kind is ArithComma || node.kind is ArithSubscript,
    ensures
        extends(old(out)@, final(out)@),
        arith_rest_text(*node) matches Some(t) ==> final(out)@ == old(out)@ + t,
    decreases b, 1int, *node, 3int,
{
    let ghost parent = *node;
    match &node.kind {
        NodeKind::ArithAssign { op, target, value } => {
            out.push('(');
            push_string(out, op);
            out.push(' ');
            write_node(target, out, b);
            out.push(' ');
            write_node(value, out, b);
            out.push(')');
            proof { if arith_rest_text(*node) is Some { assert(out@ =~= old(out)@ + arith_rest_text(*node)->0) } }
        }
        NodeKind::ArithTernary { condition, if_true, if_false } => {
            push_str(out, "(? ");
            write_node(condition, out, b);
            if let Some(t) = if_true {
                out.push(' ');
                write_node(t, out, b);
            }
            if let Some(f) = if_false {
                out.push(' ');
                write_node(f, out, b);
            }
            out.push(')');
            proof { if arith_rest_text(*node) is Some { assert(out@ =~= old(out)@ + arith_rest_text(*node)->0) } }
        }
        NodeKind::ArithComma { left, right } => {
            push_str(out, "(, ");
            write_node(left, out, b);
            out.push(' ');
            write_node(right, out, b);
            out.push(')');
            proof { if arith_rest_text(*node) is Some { assert(out@ =~= old(out)@ + arith_rest_text(*node)->0) } }
        }
        NodeKind::ArithSubscript { array, index } => {
            push_str(out, "(subscript ");
            push_string(out, array);
            out.push(' ');
            write_node(index, out, b);
            out.push(')');
            proof { if arith_rest_text(*node) is Some { assert(out@ =~= old(out)@ + arith_rest_text(*node)->0) } }
        }
        _ => {}
    }
}

/// Appends the S-expression form of an empty, escaped, deprecated or concatenated arithmetic node.
#[verifier::spinoff_prover]
#[verifier::rlimit(100)]
fn write_arith_leaf(node: &Node, out: &mut Vec<char>, b: usize)
    requires
        node.kind is ArithEmpty || node.kind is ArithEscape || node.kind is ArithDeprecated || node.kind is ArithConcat,
    ensures
        extends(old(out)@, final(out)@),
        arith_rest_text(*node) matches Some(t) ==> final(out)@ == old(out)@ + t,
    decreases b, 1int, *node, 3int,
{
    let ghost parent = *node;
    match &node.kind {
        NodeKind::ArithEmpty => {
            push_str(out, "(empty)");
            proof { if arith_rest_text(*node) is Some { assert(out@ =~= old(out)@ + arith_rest_text(*node)->0) } }
        }
        NodeKind::ArithEscape { ch } => {
            push_str(out, "(escape ");
            push_string(out, ch);
            out.push(')');
            proof { if arith_rest_text(*node) is Some { assert(out@ =~= old(out)@ + arith_rest_text(*node)->0) } }
        }
        NodeKind::ArithDeprecated { expression } => {
            push_str(out, "(arith-deprecated ");
            push_string(out, expression);
            out.push(')');
            proof { if arith_rest_text(*node) is Some { assert(out@ =~= old(out)@ + arith_rest_text(*node)->0) } }
        }
        NodeKind::ArithConcat { parts } => {
            proof { lemma_vec_below(parent, node.kind->ArithConcat_parts); }
            push_str(out, "(concat");
            write_children(parts, out, b, Ghost(parent));
            out.push(')');
            proof { if arith_rest_text(*node) is Some { assert(out@ =~= old(out)@ + arith_rest_text(*node)->0) } }
        }
        _ => {}
    }
}



/// Appends the S-expression form of a word, a leaf or an expansion.
#[verifier::spinoff_prover]
#[verifier::rlimit(100)]
fn write_leaf_node(node: &Node, out: &mut Vec<char>, b: usize)
    requires
        node.kind is Word || node.kind is WordLiteral || node.kind is CondTerm || node.kind is Empty
            || node.kind is Comment || node.kind is HereDoc || node.kind is ParamExpansion
            || node.kind is ParamLength || node.kind is ParamIndirect || node.kind is AnsiCQuote
            || node.kind is LocaleString || node.kind is BraceExpansion,
    ensures
        extends(old(out)@, final(out)@),
        leaf_text(*node) matches Some(t) ==> final(out)@ == old(out)@ + t,
    decreases b, 1int, *node, 3int,
{
    match &node.kind {
        NodeKind::Word { value, spans, .. } => {
            write_word(value, spans, out, b);
            proof { if leaf_text(*node) is Some { assert(out@ =~= old(out)@ + leaf_text(*node)->0) } }
        }
        NodeKind::WordLiteral { value } => {
            push_string(out, value);
            proof { if leaf_text(*node) is Some { assert(out@ =~= old(out)@ + leaf_text(*node)->0) } }
        }
        NodeKind::CondTerm { value, spans } => {
            write_cond_term(value, spans, out, b);
            proof { if leaf_text(*node) is Some { assert(out@ =~= old(out)@ + leaf_text(*node)->0) } }
        }
        NodeKind::Empty => {
            push_str(out, "(command)");
            proof { if leaf_text(*node) is Some { assert(out@ =~= old(out)@ + leaf_text(*node)->0) } }
        }
        NodeKind::Comment { text } => {
            push_str(out, "(comment ");
            write_quoted_raw(out, text);
            out.push(')');
            proof { if leaf_text(*node) is Some { assert(out@ =~= old(out)@ + leaf_text(*node)->0) } }
        }
        NodeKind::HereDoc { content, strip_tabs, .. } => {
            if *strip_tabs {
                push_str(out, "(redirect \"<<-\" ");
            } else {
                push_str(out, "(redirect \"<<\" ");
            }
            write_quoted_raw(out, content);
            out.push(')');
            proof { if leaf_text(*node) is Some { assert(out@ =~= old(out)@ + leaf_text(*node)->0) } }
        }
        NodeKind::ParamExpansion { param, op, arg } => {
            write_param(out, "${", param, op, arg);
            proof { if leaf_text(*node) is Some { assert(out@ =~= old(out)@ + leaf_text(*node)->0) } }
        }
        NodeKind::ParamLength { param } => {
            push_str(out, "${#");
            push_string(out, param);
            out.push('}');
            proof { if leaf_text(*node) is Some { assert(out@ =~= old(out)@ + leaf_text(*node)->0) } }
        }
        NodeKind::ParamIndirect { param, op, arg } => {
            write_param(out, "${!", param, op, arg);
            proof { if leaf_text(*node) is Some { assert(out@ =~= old(out)@ + leaf_text(*node)->0) } }
        }
        NodeKind::AnsiCQuote { content, .. } => {
            push_str(out, "$'");
            push_string(out, content);
            out.push('\'');
            proof { if leaf_text(*node) is Some { assert(out@ =~= old(out)@ + leaf_text(*node)->0) } }
        }
        NodeKind::LocaleString { content, .. } => {
            push_str(out, "$\"");
            push_string(out, content);
            out.push('"');
            proof { if leaf_text(*node) is Some { assert(out@ =~= old(out)@ + leaf_text(*node)->0) } }
        }
        NodeKind::BraceExpansion { content } => {
            push_string(out, content);
            proof { if leaf_text(*node) is Some { assert(out@ =~= old(out)@ + leaf_text(*node)->0) } }
        }
        _ => {}
    }
}

/// Appends the S-expression form of a command, a pipeline, a list or an array.
#[verifier::spinoff_prover]
#[verifier::rlimit(100)]
fn write_command_node(node: &Node, out: &mut Vec<char>, b: usize)
    requires
        node.kind is Command || node.kind is Pipeline || node.kind is List || node.kind is Array,
    ensures
        extends(old(out)@, final(out)@),
        command_text(*node) matches Some(t) ==> final(out)@ == old(out)@ + t,
    decreases b, 1int, *node, 3int,
{
    let ghost parent = *node;
    match &node.kind {
        NodeKind::Command { assignments, words, redirects } => {
            proof {
                lemma_vec_below(parent, node.kind->Command_assignments);
                lemma_vec_below(parent, node.kind->Command_words);
                lemma_vec_below(parent, node.kind->Command_redirects);
            }
            push_str(out, "(command");
            write_children(assignments, out, b, Ghost(parent));
            write_children(words, out, b, Ghost(parent));
            write_children(redirects, out, b, Ghost(parent));
            out.push(')');
            proof { if command_text(*node) is Some { assert(out@ =~= old(out)@ + command_text(*node)->0) } }
        }
        NodeKind::Pipeline { commands, .. } => {
            proof { lemma_vec_below(parent, node.kind->Pipeline_commands); }
            write_pipeline(commands, out, b, Ghost(parent));
            proof { if command_text(*node) is Some { assert(out@ =~= old(out)@ + command_text(*node)->0) } }
        }
        NodeKind::List { items } => {
            proof { lemma_items_below(parent, node.kind->List_items); }
            write_list(items, out, b, Ghost(parent));
            proof { if command_text(*node) is Some { assert(out@ =~= old(out)@ + command_text(*node)->0) } }
        }
        NodeKind::Array { elements } => {
            proof { lemma_vec_below(parent, node.kind->Array_elements); }
            push_str(out, "(array");
            write_children(elements, out, b, Ghost(parent));
            out.push(')');
            proof { if command_text(*node) is Some { assert(out@ =~= old(out)@ + command_text(*node)->0) } }
        }
        _ => {}
    }
}

/// Appends the S-expression form of a negation, `time`, a redirect or an arithmetic command.
#[verifier::spinoff_prover]
#[verifier::rlimit(100)]
fn write_wrapper_node(node: &Node, out: &mut Vec<char>, b: usize)
    requires
        node.kind is Negation || node.kind is Time || node.kind is Redirect || node.kind is ArithmeticCommand,
    ensures
        extends(old(out)@, final(out)@),
        command_text(*node) matches Some(t) ==> final(out)@ == old(out)@ + t,
    decreases b, 1int, *node, 3int,
{
    let ghost parent = *node;
    match &node.kind {
        NodeKind::Negation { pipeline } => {
            push_str(out, "(negation ");
            write_node(pipeline, out, b);
            out.push(')');
            proof { if command_text(*node) is Some { assert(out@ =~= old(out)@ + command_text(*node)->0) } }
        }
        NodeKind::Time { pipeline, posix } => {
            if *posix {
                push_str(out, "(time -p ");
            } else {
                push_str(out, "(time ");
            }
            write_node(pipeline, out, b);
            out.push(')');
            proof { if command_text(*node) is Some { assert(out@ =~= old(out)@ + command_text(*node)->0) } }
        }
        NodeKind::Redirect { op, target, .. } => {
            write_redirect(op, target, out, b, Ghost(parent));
            proof { if command_text(*node) is Some { assert(out@ =~= old(out)@ + command_text(*node)->0) } }
        }
        NodeKind::ArithmeticCommand { redirects, raw_content, .. } => {
            proof { lemma_vec_below(parent, node.kind->ArithmeticCommand_redirects); }
            push_str(out, "(arith (word \"");
            write_escaped_word(out, chars_of(raw_content.as_str()).as_slice());
            push_str(out, "\"))");
            write_redirects(redirects, out, b, Ghost(parent));
            proof { if command_text(*node) is Some { assert(out@ =~= old(out)@ + command_text(*node)->0) } }
        }
        _ => {}
    }
}

/// Appends the S-expression form of a substitution, a function or a coprocess.
#[verifier::spinoff_prover]
#[verifier::rlimit(100)]
fn write_substitution_node(node: &Node, out: &mut Vec<char>, b: usize)
    requires
        node.kind is CommandSubstitution || node.kind is ProcessSubstitution || node.kind is Function || node.kind is Coproc,
    ensures
        extends(old(out)@, final(out)@),
        command_text(*node) matches Some(t) ==> final(out)@ == old(out)@ + t,
    decreases b, 1int, *node, 3int,
{
    let ghost parent = *node;
    match &node.kind {
        NodeKind::CommandSubstitution { command, brace } => {
            if *brace {
                push_str(out, "(cmdsub-brace ");
            } else {
                push_str(out, "(cmdsub ");
            }
            write_node(command, out, b);
            out.push(')');
            proof { if command_text(*node) is Some { assert(out@ =~= old(out)@ + command_text(*node)->0) } }
        }
        NodeKind::ProcessSubstitution { direction, command } => {
            push_str(out, "(procsub ");
            push_string(out, direction);
            out.push(' ');
            write_node(command, out, b);
            out.push(')');
            proof { if command_text(*node) is Some { assert(out@ =~= old(out)@ + command_text(*node)->0) } }
        }
        NodeKind::Function { name, body } => {
            push_str(out, "(function ");
            write_quoted_raw(out, name);
            out.push(' ');
            write_node(body, out, b);
            out.push(')');
            proof { if command_text(*node) is Some { assert(out@ =~= old(out)@ + command_text(*node)->0) } }
        }
        NodeKind::Coproc { name, command } => {
            push_str(out, "(coproc \"");
            match name {
                Some(n) => push_string(out, n),
                None => push_str(out, "COPROC"),
            }
            push_str(out, "\" ");
            write_node(command, out, b);
            out.push(')');
            proof { if command_text(*node) is Some { assert(out@ =~= old(out)@ + command_text(*node)->0) } }
        }
        _ => {}
    }
}


/// Appends the S-expression form of a conditional, loop or grouping command.
#[verifier::spinoff_prover]
#[verifier::rlimit(100)]
fn write_compound_node(node: &Node, out: &mut Vec<char>, b: usize)
    requires
        node.kind is If || node.kind is While || node.kind is Until || node.kind is Subshell || node.kind is BraceGroup,
    ensures
        extends(old(out)@, final(out)@),
        compound_text(*node) matches Some(t) ==> final(out)@ == old(out)@ + t,
    decreases b, 1int, *node, 3int,
{
    let ghost parent = *node;
    match &node.kind {
        NodeKind::If { condition, then_body, else_body, redirects } => {
            proof { lemma_vec_below(parent, node.kind->If_redirects); }
            push_str(out, "(if ");
            write_node(condition, out, b);
            out.push(' ');
            write_node(then_body, out, b);
            if let Some(eb) = else_body {
                out.push(' ');
                write_node(eb, out, b);
            }
            out.push(')');
            write_redirects(redirects, out, b, Ghost(parent));
            proof { if compound_text(*node) is Some { assert(out@ =~= old(out)@ + compound_text(*node)->0) } }
        }
        NodeKind::While { condition, body, redirects } => {
            proof { lemma_vec_below(parent, node.kind->While_redirects); }
            push_str(out, "(while ");
            write_node(condition, out, b);
            out.push(' ');
            write_node(body, out, b);
            out.push(')');
            write_redirects(redirects, out, b, Ghost(parent));
            proof { if compound_text(*node) is Some { assert(out@ =~= old(out)@ + compound_text(*node)->0) } }
        }
        NodeKind::Until { condition, body, redirects } => {
            proof { lemma_vec_below(parent, node.kind->Until_redirects); }
            push_str(out, "(until ");
            write_node(condition, out, b);
            out.push(' ');
            write_node(body, out, b);
            out.push(')');
            write_redirects(redirects, out, b, Ghost(parent));
            proof { if compound_text(*node) is Some { assert(out@ =~= old(out)@ + compound_text(*node)->0) } }
        }
        NodeKind::Subshell { body, redirects } => {
            proof { lemma_vec_below(parent, node.kind->Subshell_redirects); }
            push_str(out, "(subshell ");
            write_node(body, out, b);
            out.push(')');
            write_redirects(redirects, out, b, Ghost(parent));
            proof { if compound_text(*node) is Some { assert(out@ =~= old(out)@ + compound_text(*node)->0) } }
        }
        NodeKind::BraceGroup { body, redirects } => {
            proof { lemma_vec_below(parent, node.kind->BraceGroup_redirects); }
            push_str(out, "(brace-group ");
            write_node(body, out, b);
            out.push(')');
            write_redirects(redirects, out, b, Ghost(parent));
            proof { if compound_text(*node) is Some { assert(out@ =~= old(out)@ + compound_text(*node)->0) } }
        }
        _ => {}
    }
}

/// Appends the S-expression form of a `for`, `select` or arithmetic `for` loop.
#[verifier::spinoff_prover]
#[verifier::rlimit(100)]
fn write_loop_node(node: &Node, out: &mut Vec<char>, b: usize)
    requires
        node.kind is For || node.kind is Select || node.kind is ForArith,
    ensures
        extends(old(out)@, final(out)@),
        loop_text(*node) matches Some(t) ==> final(out)@ == old(out)@ + t,
    decreases b, 1int, *node, 3int,
{
    let ghost parent = *node;
    match &node.kind {
        NodeKind::For { var, words, body, redirects } => {
            proof {
                lemma_vec_below(parent, node.kind->For_redirects);
                if let Some(ws) = node.kind->For_words {
                    assert(decreases_to!(node.kind => node.kind->For_words));
                    lemma_vec_below(parent, ws);
                }
            }
            push_str(out, "(for (word ");
            write_quoted_raw(out, var);
            out.push(')');
            write_in_list(words, out, b, Ghost(parent));
            out.push(' ');
            write_node(body, out, b);
            out.push(')');
            write_redirects(redirects, out, b, Ghost(parent));
            proof { if loop_text(*node) is Some { assert(out@ =~= old(out)@ + loop_text(*node)->0) } }
        }
        NodeKind::Select { var, words, body, redirects } => {
            proof {
                lemma_vec_below(parent, node.kind->Select_redirects);
                if let Some(ws) = node.kind->Select_words {
                    assert(decreases_to!(node.kind => node.kind->Select_words));
                    lemma_vec_below(parent, ws);
                }
            }
            push_str(out, "(select (word ");
            write_quoted_raw(out, var);
            out.push(')');
            write_in_list(words, out, b, Ghost(parent));
            out.push(' ');
            write_node(body, out, b);
            out.push(')');
            write_redirects(redirects, out, b, Ghost(parent));
            proof { if loop_text(*node) is Some { assert(out@ =~= old(out)@ + loop_text(*node)->0) } }
        }
        NodeKind::ForArith { init, cond, incr, body, redirects } => {
            proof { lemma_vec_below(parent, node.kind->ForArith_redirects); }
            push_str(out, "(arith-for (init (word \"");
            write_escaped_word(out, chars_of(init.as_str()).as_slice());
            push_str(out, "\")) (test (word \"");
            write_escaped_word(out, chars_of(cond.as_str()).as_slice());
            push_str(out, "\")) (step (word \"");
            write_escaped_word(out, chars_of(incr.as_str()).as_slice());
            push_str(out, "\")) ");
            write_node(body, out, b);
            out.push(')');
            write_redirects(redirects, out, b, Ghost(parent));
            proof { if loop_text(*node) is Some { assert(out@ =~= old(out)@ + loop_text(*node)->0) } }
        }
        _ => {}
    }
}

/// Appends the S-expression form of a `case` command.
#[verifier::spinoff_prover]
#[verifier::rlimit(100)]
fn write_case_node(node: &Node, out: &mut Vec<char>, b: usize)
    requires
        node.kind is Case,
    ensures
        extends(old(out)@, final(out)@),
        case_text(*node) matches Some(t) ==> final(out)@ == old(out)@ + t,
    decreases b, 1int, *node, 3int,
{
    let ghost parent = *node;
    match &node.kind {
        NodeKind::Case { word, patterns, redirects } => {
            proof {
                lemma_vec_below(parent, node.kind->Case_redirects);
                lemma_patterns_below(parent, node.kind->Case_patterns);
            }
            push_str(out, "(case ");
            write_node(word, out, b);
            let ghost cases_start = out@;
            let ghost ps = patterns@;
            let mut i: usize = 0;
            while i < patterns.len()
                invariant
                    i <= patterns@.len(),
                    ps == patterns@,
                    extends(old(out)@, cases_start),
                    extends(cases_start, out@),
                    forall|a: int, c: int| 0 <= a < patterns@.len() && 0 <= c < patterns@[a].patterns@.len()
                        ==> #[trigger] below(parent, patterns@[a].patterns@[c]),
                    forall|a: int| 0 <= a < patterns@.len() && patterns@[a].body is Some ==> #[trigger] below(parent, patterns@[a].body->0),
                    parent == *node,
                    cases_text(ps.subrange(0, i as int)) matches Some(t) ==> out@ == cases_start + t,
                decreases patterns.len() - i,
            {
                out.push(' ');
                assert(patterns@[i as int].body is Some ==> below(parent, patterns@[i as int].body->0));
                write_case_pattern(&patterns[i], out, b, Ghost(parent));
                proof {
                    let cur = ps.subrange(0, i + 1);
                    assert(cur.drop_last() =~= ps.subrange(0, i as int));
                    assert(cur.last() == ps[i as int]);
                    if cases_text(cur) is Some {
                        assert(out@ =~= cases_start + cases_text(cur)->0);
                    }
                }
                i = i + 1;
            }
            assert(ps.subrange(0, ps.len() as int) =~= ps);
            out.push(')');
            write_redirects(redirects, out, b, Ghost(parent));
            proof { if case_text(*node) is Some { assert(out@ =~= old(out)@ + case_text(*node)->0) } }
        }
        _ => {}
    }
}


/// Appends the S-expression form of a conditional-expression node.
#[verifier::spinoff_prover]
#[verifier::rlimit(100)]
fn write_cond_node(node: &Node, out: &mut Vec<char>, b: usize)
    requires
        node.kind is ConditionalExpr || node.kind is UnaryTest || node.kind is BinaryTest || node.kind is CondAnd
            || node.kind is CondOr || node.kind is CondNot || node.kind is CondParen,
    ensures
        extends(old(out)@, final(out)@),
        cond_text(*node) matches Some(t) ==> final(out)@ == old(out)@ + t,
    decreases b, 1int, *node, 3int,
{
    let ghost parent = *node;
    match &node.kind {
        NodeKind::ConditionalExpr { body, redirects } => {
            proof { lemma_vec_below(parent, node.kind->ConditionalExpr_redirects); }
            push_str(out, "(cond ");
            write_node(body, out, b);
            out.push(')');
            write_redirects(redirects, out, b, Ghost(parent));
            proof { if cond_text(*node) is Some { assert(out@ =~= old(out)@ + cond_text(*node)->0) } }
        }
        NodeKind::UnaryTest { op, operand } => {
            push_str(out, "(cond-unary ");
            write_quoted_raw(out, op);
            out.push(' ');
            write_node(operand, out, b);
            out.push(')');
            proof { if cond_text(*node) is Some { assert(out@ =~= old(out)@ + cond_text(*node)->0) } }
        }
        NodeKind::BinaryTest { op, left, right } => {
            push_str(out, "(cond-binary ");
            write_quoted_raw(out, op);
            out.push(' ');
            write_node(left, out, b);
            out.push(' ');
            write_node(right, out, b);
            out.push(')');
            proof { if cond_text(*node) is Some { assert(out@ =~= old(out)@ + cond_text(*node)->0) } }
        }
        NodeKind::CondAnd { left, right } => {
            push_str(out, "(cond-and ");
            write_node(left, out, b);
            out.push(' ');
            write_node(right, out, b);
            out.push(')');
            proof { if cond_text(*node) is Some { assert(out@ =~= old(out)@ + cond_text(*node)->0) } }
        }
        NodeKind::CondOr { left, right } => {
            push_str(out, "(cond-or ");
            write_node(left, out, b);
            out.push(' ');
            write_node(right, out, b);
            out.push(')');
            proof { if cond_text(*node) is Some { assert(out@ =~= old(out)@ + cond_text(*node)->0) } }
        }
        NodeKind::CondNot { operand } => {
            write_node(operand, out, b);
            proof { if cond_text(*node) is Some { assert(out@ =~= old(out)@ + cond_text(*node)->0) } }
        }
        NodeKind::CondParen { inner } => {
            push_str(out, "(cond-expr ");
            write_node(inner, out, b);
            out.push(')');
            proof { if cond_text(*node) is Some { assert(out@ =~= old(out)@ + cond_text(*node)->0) } }
        }
        _ => {}
    }
}

/// Appends the S-expression form of a node. `b` is how many nested
/// reformattings of substitution bodies are still allowed.
pub fn write_node(node: &Node, out: &mut Vec<char>, b: usize)
    ensures
        extends(old(out)@, final(out)@),
        sexp_text(*node) matches Some(t) ==> final(out)@ == old(out)@ + t,
    decreases b, 1int, *node, 4int,
{
    match &node.kind {
        NodeKind::Word { .. } | NodeKind::WordLiteral { .. } | NodeKind::CondTerm { .. } | NodeKind::Empty
        | NodeKind::Comment { .. } | NodeKind::HereDoc { .. } | NodeKind::ParamExpansion { .. }
        | NodeKind::ParamLength { .. } | NodeKind::ParamIndirect { .. } | NodeKind::AnsiCQuote { .. }
        | NodeKind::LocaleString { .. } | NodeKind::BraceExpansion { .. } => write_leaf_node(node, out, b),
        NodeKind::Command { .. } | NodeKind::Pipeline { .. } | NodeKind::List { .. }
        | NodeKind::Array { .. } => write_command_node(node, out, b),
        NodeKind::Negation { .. } | NodeKind::Time { .. } | NodeKind::Redirect { .. }
        | NodeKind::ArithmeticCommand { .. } => write_wrapper_node(node, out, b),
        NodeKind::CommandSubstitution { .. } | NodeKind::ProcessSubstitution { .. } | NodeKind::Function { .. }
        | NodeKind::Coproc { .. } => write_substitution_node(node, out, b),
        NodeKind::If { .. } | NodeKind::While { .. } | NodeKind::Until { .. } | NodeKind::Subshell { .. }
        | NodeKind::BraceGroup { .. } => write_compound_node(node, out, b),
        NodeKind::For { .. } | NodeKind::Select { .. } | NodeKind::ForArith { .. } => write_loop_node(node, out, b),
        NodeKind::Case { .. } => write_case_node(node, out, b),
        NodeKind::ConditionalExpr { .. } | NodeKind::UnaryTest { .. } | NodeKind::BinaryTest { .. }
        | NodeKind::CondAnd { .. } | NodeKind::CondOr { .. } | NodeKind::CondNot { .. }
        | NodeKind::CondParen { .. } => write_cond_node(node, out, b),
        NodeKind::ArithmeticExpansion { .. } | NodeKind::ArithNumber { .. } | NodeKind::ArithVar { .. }
        | NodeKind::ArithBinaryOp { .. } | NodeKind::ArithUnaryOp { .. } | NodeKind::ArithPreIncr { .. }
        | NodeKind::ArithPostIncr { .. } | NodeKind::ArithPreDecr { .. }
        | NodeKind::ArithPostDecr { .. } => write_arith_node(node, out, b),
        NodeKind::ArithAssign { .. } | NodeKind::ArithTernary { .. } | NodeKind::ArithComma { .. }
        | NodeKind::ArithSubscript { .. } => write_arith_rest(node, out, b),
        NodeKind::ArithEmpty | NodeKind::ArithEscape { .. } | NodeKind::ArithDeprecated { .. }
        | NodeKind::ArithConcat { .. } => write_arith_leaf(node, out, b),
    }
}

impl Node {
    /// The S-expression form of this node.
    pub fn to_string(&self) -> (r: String)
        ensures
            sexp_text(*self) matches Some(t) ==> r@ == t,
    {
        let mut out: Vec<char> = Vec::new();
        write_node(self, &mut out, super::REFORMAT_BUDGET);
        assert(Seq::<char>::empty() + out@ =~= out@);
        string_from_chars(out.as_slice())
    }
}

impl CasePattern {
    /// The S-expression form of this clause: `(pattern (w ...) body)`.
    pub fn to_string(&self) -> (r: String)
        ensures
            pattern_text(*self) matches Some(t) ==> r@ == t,
    {
        let ghost s = self.patterns@;
        let mut out: Vec<char> = Vec::new();
        push_str(&mut out, "(pattern (");
        let ghost start = out@;
        let mut j: usize = 0;
        while j < self.patterns.len()
            invariant
                j <= self.patterns@.len(),
                s == self.patterns@,
                join_text(s.subrange(0, j as int)) matches Some(t) ==> out@ == start + t,
            decreases self.patterns.len() - j,
        {
            if j > 0 {
                out.push(' ');
            }
            write_node(&self.patterns[j], &mut out, super::REFORMAT_BUDGET);
            proof {
                let cur = s.subrange(0, j + 1);
                assert(cur.drop_last() =~= s.subrange(0, j as int));
                assert(cur.last() == s[j as int]);
                if j == 0 {
                    assert(cur[0] == s[0]);
                }
                if join_text(cur) is Some {
                    assert(out@ =~= start + join_text(cur)->0);
                }
            }
            j = j + 1;
        }
        assert(s.subrange(0, s.len() as int) =~= s);
        out.push(')');
        match &self.body {
            Some(body) => {
                out.push(' ');
                write_node(body, &mut out, super::REFORMAT_BUDGET);
            }
            None => push_str(&mut out, " ()"),
        }
        out.push(')');
        proof {
            if pattern_text(*self) is Some {
                assert(out@ =~= pattern_text(*self)->0);
            }
        }
        string_from_chars(out.as_slice())
    }
}

} // verus!
