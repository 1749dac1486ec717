//! Compound commands in canonical bash layout: `if`, loops, `case`,
//! functions, groups, `!`, `time`, `coproc` and `[[ ... ]]`.
use vstd::prelude::*;
use crate::ast::{CasePattern, Node, NodeKind};
use crate::sexp::nodes::{below, lemma_items_below, lemma_patterns_below, lemma_vec_below};
use crate::sexp::model::{cat, lit};
use super::layout::{alternatives_src, body_src, case_src, clause_src, clauses_src, fmt_text, for_src, function_body_src,
    function_src, group_src, if_src, while_src, in_words_src, loop_tail_src,
    plain_value, sat_add, spaces, trailing_src};
use super::Formatter;

verus! {

impl Formatter {
    /// Writes a compound command.
    pub fn format_compound_node(&mut self, node: &Node, b: usize)
        requires
            node.kind is If || node.kind is While || node.kind is Until || node.kind is For || node.kind is Select
                || node.kind is ForArith || node.kind is Case || node.kind is Function || node.kind is Subshell
                || node.kind is BraceGroup || node.kind is Negation || node.kind is Time || node.kind is Coproc
                || node.kind is ConditionalExpr,
        ensures
            fmt_text(*node, old(self).indentation()) matches Some(t) ==> final(self).text() == old(self).text() + t,
            final(self).indentation() == old(self).indentation(),
        decreases b, 2int, *node, 9int,
    {
        match &node.kind {
            NodeKind::If { .. } => self.format_if(node, b),
            NodeKind::While { .. } | NodeKind::Until { .. } => self.format_while_until(node, b),
            NodeKind::For { .. } | NodeKind::Select { .. } => self.format_for_or_select(node, b),
            NodeKind::ForArith { .. } => self.format_for_arith(node, b),
            NodeKind::Case { .. } => self.format_case(node, b),
            NodeKind::Function { .. } => self.format_function(node, b),
            _ => self.format_group(node, b),
        }
    }

    /// `if c; then ... [else ...] fi`.
    fn format_if(&mut self, node: &Node, b: usize)
        requires
            node.kind is If,
        ensures
            if_src(*node, old(self).indentation()) matches Some(t) ==> final(self).text() == old(self).text() + t,
            final(self).indentation() == old(self).indentation(),
        decreases b, 2int, *node, 8int,
    {
        let ghost parent = *node;
        if let NodeKind::If { condition, then_body, else_body, .. } = &node.kind {
            self.write_str("if ");
            self.format_node(condition, b);
            self.write_str("; then\n");
            self.indented_body(then_body, 4, b, Ghost(parent));
            if let Some(eb) = else_body {
                self.indent_here();
                self.write_str("else\n");
                self.indented_body(eb, 4, b, Ghost(parent));
            }
            self.indent_here();
            self.write_str("fi");
        }
        proof {
            if if_src(*node, old(self).indentation()) is Some {
                assert(self.text() =~= old(self).text() + if_src(*node, old(self).indentation())->0);
            }
        }
    }

    /// `while c; do ... done` and `until c; do ... done`.
    fn format_while_until(&mut self, node: &Node, b: usize)
        requires
            node.kind is While || node.kind is Until,
        ensures
            while_src(*node, old(self).indentation()) matches Some(t) ==> final(self).text() == old(self).text() + t,
            final(self).indentation() == old(self).indentation(),
        decreases b, 2int, *node, 8int,
    {
        let ghost parent = *node;
        match &node.kind {
            NodeKind::While { condition, body, redirects } => {
                proof { lemma_vec_below(parent, node.kind->While_redirects); }
                self.write_str("while ");
                self.format_loop_rest(condition, body, redirects, b, Ghost(parent));
            }
            NodeKind::Until { condition, body, redirects } => {
                proof { lemma_vec_below(parent, node.kind->Until_redirects); }
                self.write_str("until ");
                self.format_loop_rest(condition, body, redirects, b, Ghost(parent));
            }
            _ => {}
        }
    }

    /// `c; do` then the body one level deeper, `done` and the trailing
    /// redirects of a `while` or `until` loop.
    fn format_loop_rest(&mut self, condition: &Node, body: &Node, redirects: &Vec<Node>, b: usize, Ghost(parent): Ghost<Node>)
        requires
            below(parent, *condition),
            below(parent, *body),
            forall|i: int| 0 <= i < redirects@.len() ==> #[trigger] below(parent, redirects@[i]),
        ensures
            ({
                let ind = old(self).indentation();
                cat(fmt_text(*condition, ind), cat(cat(lit("; do\n"@), body_src(*body, ind)),
                    cat(lit(spaces(ind) + "done"@), trailing_src(redirects@))))
            }) matches Some(t) ==> final(self).text() == old(self).text() + t,
            final(self).indentation() == old(self).indentation(),
        decreases b, 2int, parent, 7int,
    {
        let ghost ind = self.indentation();
        let ghost t0 = self.text();
        self.format_node(condition, b);
        let ghost t1 = self.text();
        self.write_str("; do\n");
        self.indented_body(body, 4, b, Ghost(parent));
        let ghost t2 = self.text();
        self.indent_here();
        self.write_str("done");
        let ghost t3 = self.text();
        self.write_trailing_redirects(redirects, b, Ghost(parent));
        proof {
            let e = cat(fmt_text(*condition, ind), cat(cat(lit("; do\n"@), body_src(*body, ind)),
                cat(lit(spaces(ind) + "done"@), trailing_src(redirects@))));
            if e is Some {
                assert(t3 == t2 + spaces(ind) + "done"@);
                assert(self.text() =~= t0 + e->0);
            }
        }
    }

    /// `for` and `select` loops.
    fn format_for_or_select(&mut self, node: &Node, b: usize)
        requires
            node.kind is For || node.kind is Select,
        ensures
            for_src(*node, old(self).indentation()) matches Some(t) ==> final(self).text() == old(self).text() + t,
            final(self).indentation() == old(self).indentation(),
        decreases b, 2int, *node, 8int,
    {
        let ghost parent = *node;
        match &node.kind {
            NodeKind::For { var, words, body, .. } => {
                self.write_str("for ");
                self.format_for_or_select_tail(var, words, body, b, Ghost(parent));
            }
            NodeKind::Select { var, words, body, redirects } => {
                proof { lemma_vec_below(parent, node.kind->Select_redirects); }
                self.write_str("select ");
                self.format_for_or_select_tail(var, words, body, b, Ghost(parent));
                self.write_trailing_redirects(redirects, b, Ghost(parent));
            }
            _ => {}
        }
        proof {
            if for_src(*node, old(self).indentation()) is Some {
                assert(self.text() =~= old(self).text() + for_src(*node, old(self).indentation())->0);
            }
        }
    }

    /// `for ((init; cond; incr))`, then `do`, the body and `done`.
    fn format_for_arith(&mut self, node: &Node, b: usize)
        requires
            node.kind is ForArith,
        ensures
            for_src(*node, old(self).indentation()) matches Some(t) ==> final(self).text() == old(self).text() + t,
            final(self).indentation() == old(self).indentation(),
        decreases b, 2int, *node, 8int,
    {
        let ghost parent = *node;
        if let NodeKind::ForArith { init, cond, incr, body, .. } = &node.kind {
            self.write_str("for ((");
            self.write_string(init);
            self.write_str("; ");
            self.write_string(cond);
            self.write_str("; ");
            self.write_string(incr);
            self.write_str("))\n");
            self.indent_here();
            self.write_str("do\n");
            self.indented_body(body, 4, b, Ghost(parent));
            self.indent_here();
            self.write_str("done");
        }
        proof {
            if for_src(*node, old(self).indentation()) is Some {
                assert(self.text() =~= old(self).text() + for_src(*node, old(self).indentation())->0);
            }
        }
    }

    /// `case w in a | b) ... ;; esac`, one clause per line.
    fn format_case(&mut self, node: &Node, b: usize)
        requires
            node.kind is Case,
        ensures
            case_src(*node, old(self).indentation()) matches Some(t) ==> final(self).text() == old(self).text() + t,
            final(self).indentation() == old(self).indentation(),
        decreases b, 2int, *node, 8int,
    {
        let ghost parent = *node;
        if let NodeKind::Case { word, patterns, redirects } = &node.kind {
            proof {
                lemma_vec_below(parent, node.kind->Case_redirects);
                lemma_patterns_below(parent, node.kind->Case_patterns);
            }
            self.write_str("case ");
            if let NodeKind::Word { value, .. } = &word.kind {
                self.write_string(value);
            }
            self.write_str(" in ");
            assert(self.text() =~= old(self).text() + ("case "@ + plain_value(**word) + " in "@));
            self.format_clauses(patterns, redirects, b, Ghost(parent));
        }
    }

    /// The clauses of a `case`, one per line, then `esac` and the trailing
    /// redirects.
    fn format_clauses(&mut self, patterns: &Vec<CasePattern>, redirects: &Vec<Node>, b: usize, Ghost(parent): Ghost<Node>)
        requires
            forall|a: int| 0 <= a < patterns@.len() && patterns@[a].body is Some ==> #[trigger] below(parent, patterns@[a].body->0),
            forall|i: int| 0 <= i < redirects@.len() ==> #[trigger] below(parent, redirects@[i]),
        ensures
            ({
                let ind = old(self).indentation();
                cat(clauses_src(patterns@, ind), cat(lit(seq!['\n'] + spaces(ind) + "esac"@), trailing_src(redirects@)))
            }) matches Some(t) ==> final(self).text() == old(self).text() + t,
            final(self).indentation() == old(self).indentation(),
        decreases b, 2int, parent, 7int,
    {
        let ghost ind = self.indentation();
        let ghost ps = patterns@;
        let mut i: usize = 0;
        while i < patterns.len()
            invariant
                self.indentation() == old(self).indentation(),
                ind == old(self).indentation(),
                i <= patterns@.len(),
                ps == patterns@,
                forall|a: int| 0 <= a < patterns@.len() && patterns@[a].body is Some ==> #[trigger] below(parent, patterns@[a].body->0),
                clauses_src(ps.subrange(0, i as int), ind) matches Some(t) ==> self.text() == old(self).text() + t,
            decreases patterns.len() - i,
        {
            if i > 0 {
                self.write_char('\n');
                self.indent_by(4);
            }
            assert(patterns@[i as int].body is Some ==> below(parent, patterns@[i as int].body->0));
            self.format_clause(&patterns[i], b, Ghost(parent));
            proof {
                let cur = ps.subrange(0, i + 1);
                assert(cur.drop_last() =~= ps.subrange(0, i as int));
                assert(cur.last() == ps[i as int]);
                if clauses_src(cur, ind) is Some {
                    assert(self.text() =~= old(self).text() + clauses_src(cur, ind)->0);
                }
            }
            i = i + 1;
        }
        assert(ps.subrange(0, ps.len() as int) =~= ps);
        let ghost t1 = self.text();
        self.write_char('\n');
        self.indent_here();
        self.write_str("esac");
        let ghost t2 = self.text();
        assert(t2 =~= t1 + (seq!['\n'] + spaces(ind) + "esac"@));
        self.write_trailing_redirects(redirects, b, Ghost(parent));
        proof {
            let e = cat(clauses_src(ps, ind), cat(lit(seq!['\n'] + spaces(ind) + "esac"@), trailing_src(redirects@)));
            if e is Some {
                assert(self.text() =~= old(self).text() + e->0);
            }
        }
    }

    /// One clause of a `case`: `a | b)`, its body two levels deeper, its
    /// terminator one level deeper.
    fn format_clause(&mut self, p: &CasePattern, b: usize, Ghost(parent): Ghost<Node>)
        requires
            p.body is Some ==> below(parent, p.body->0),
        ensures
            clause_src(*p, old(self).indentation()) matches Some(t) ==> final(self).text() == old(self).text() + t,
            final(self).indentation() == old(self).indentation(),
        decreases b, 2int, parent, 6int,
    {
        let ghost start = self.text();
        let mut j: usize = 0;
        while j < p.patterns.len()
            invariant
                self.indentation() == old(self).indentation(),
                j <= p.patterns@.len(),
                self.text() == start + alternatives_src(p.patterns@.subrange(0, j as int)),
            decreases p.patterns.len() - j,
        {
            if j > 0 {
                self.write_str(" | ");
            }
            if let NodeKind::Word { value, .. } = &p.patterns[j].kind {
                self.write_string(value);
            }
            proof {
                let cur = p.patterns@.subrange(0, j + 1);
                assert(cur.drop_last() =~= p.patterns@.subrange(0, j as int));
                assert(cur.last() == p.patterns@[j as int]);
                if j == 0 {
                    assert(cur[0] == p.patterns@[0]);
                }
                assert(self.text() =~= start + alternatives_src(cur));
            }
            j = j + 1;
        }
        assert(p.patterns@.subrange(0, p.patterns@.len() as int) =~= p.patterns@);
        self.write_str(")\n");
        let saved = self.push_indent(8);
        self.indent_here();
        if let Some(body) = &p.body {
            self.format_node(body, b);
        }
        self.pop_indent(saved);
        self.write_char('\n');
        self.indent_by(4);
        self.write_string(&p.terminator);
        proof {
            if clause_src(*p, old(self).indentation()) is Some {
                assert(self.text() =~= old(self).text() + clause_src(*p, old(self).indentation())->0);
            }
        }
    }

    /// `function name () { ... }`, the body one statement per line.
    fn format_function(&mut self, node: &Node, b: usize)
        requires
            node.kind is Function,
        ensures
            function_src(*node, old(self).indentation()) matches Some(t) ==> final(self).text() == old(self).text() + t,
            final(self).indentation() == old(self).indentation(),
        decreases b, 2int, *node, 8int,
    {
        let ghost parent = *node;
        if let NodeKind::Function { name, body } = &node.kind {
            self.write_str("function ");
            self.write_string(name);
            self.write_str(" () \n");
            self.write_str("{ \n");
            let inner: &Box<Node> = match &body.kind {
                NodeKind::BraceGroup { body: inner, .. } => inner,
                _ => body,
            };
            proof {
                if body.kind is BraceGroup {
                    assert(decreases_to!(parent => **body));
                    assert(decreases_to!(**body => *body.kind->BraceGroup_body));
                }
            }
            assert(below(parent, **inner));
            let ghost head = self.text();
            if let NodeKind::List { items } = &inner.kind {
                proof {
                    lemma_items_below(**inner, inner.kind->List_items);
                    assert forall|k: int| 0 <= k < items@.len() implies #[trigger] below(parent, items@[k].command) by {
                        assert(below(**inner, items@[k].command));
                    }
                }
                let saved = self.push_indent(4);
                self.format_list_block(items, b, Ghost(parent));
                self.pop_indent(saved);
            } else {
                self.indented_line(inner, 4, b, Ghost(parent));
            }
            proof {
                let f = function_body_src(**inner, old(self).indentation());
                if f is Some {
                    assert(self.text() =~= head + f->0);
                }
            }
            self.write_char('\n');
            self.indent_here();
            self.write_char('}');
        }
        proof {
            if function_src(*node, old(self).indentation()) is Some {
                assert(self.text() =~= old(self).text() + function_src(*node, old(self).indentation())->0);
            }
        }
    }

    /// Subshells, brace groups, `!`, `time`, `coproc` and `[[ ... ]]`.
    fn format_group(&mut self, node: &Node, b: usize)
        requires
            node.kind is Subshell || node.kind is BraceGroup || node.kind is Negation || node.kind is Time
                || node.kind is Coproc || node.kind is ConditionalExpr,
        ensures
            group_src(*node, old(self).indentation()) matches Some(t) ==> final(self).text() == old(self).text() + t,
            final(self).indentation() == old(self).indentation(),
        decreases b, 2int, *node, 8int,
    {
        let ghost parent = *node;
        match &node.kind {
            NodeKind::Subshell { body, redirects } => {
                proof { lemma_vec_below(parent, node.kind->Subshell_redirects); }
                self.write_str("( ");
                self.format_node(body, b);
                self.write_str(" )");
                self.write_trailing_redirects(redirects, b, Ghost(parent));
            }
            NodeKind::BraceGroup { body, redirects } => {
                proof { lemma_vec_below(parent, node.kind->BraceGroup_redirects); }
                self.write_str("{ ");
                self.format_node(body, b);
                self.write_str("; }");
                self.write_trailing_redirects(redirects, b, Ghost(parent));
            }
            NodeKind::Negation { pipeline } => {
                self.write_str("! ");
                self.format_node(pipeline, b);
            }
            NodeKind::Time { pipeline, posix } => {
                if *posix {
                    self.write_str("time -p ");
                } else {
                    self.write_str("time ");
                }
                self.format_node(pipeline, b);
            }
            NodeKind::Coproc { name, command } => {
                self.write_str("coproc ");
                if let Some(n) = name {
                    self.write_string(n);
                    self.write_char(' ');
                }
                self.format_node(command, b);
            }
            NodeKind::ConditionalExpr { body, .. } => {
                self.write_str("[[ ");
                self.format_cond_node(body, b);
                self.write_str(" ]]");
            }
            _ => {}
        }
        proof {
            if group_src(*node, old(self).indentation()) is Some {
                assert(self.text() =~= old(self).text() + group_src(*node, old(self).indentation())->0);
            }
        }
    }

    /// The indentation raised by `delta`, then `indent node;` and a newline.
    fn indented_body(&mut self, node: &Node, delta: usize, b: usize, Ghost(parent): Ghost<Node>)
        requires
            below(parent, *node),
        ensures
            final(self).indentation() == old(self).indentation(),
            ({
                let ind2 = sat_add(old(self).indentation(), delta as nat);
                cat(lit(spaces(ind2)), cat(fmt_text(*node, ind2), lit(";\n"@)))
            }) matches Some(t) ==> final(self).text() == old(self).text() + t,
        decreases b, 2int, parent, 6int,
    {
        let saved = self.push_indent(delta);
        self.indent_here();
        self.format_node(node, b);
        self.write_str(";\n");
        self.pop_indent(saved);
    }

    /// The indentation raised by `delta`, then `indent node` alone.
    fn indented_line(&mut self, node: &Node, delta: usize, b: usize, Ghost(parent): Ghost<Node>)
        requires
            below(parent, *node),
        ensures
            final(self).indentation() == old(self).indentation(),
            ({
                let ind2 = sat_add(old(self).indentation(), delta as nat);
                cat(lit(spaces(ind2)), fmt_text(*node, ind2))
            }) matches Some(t) ==> final(self).text() == old(self).text() + t,
        decreases b, 2int, parent, 6int,
    {
        let saved = self.push_indent(delta);
        self.indent_here();
        self.format_node(node, b);
        self.pop_indent(saved);
    }

    /// ` r` for each trailing redirect of a compound command.
    fn write_trailing_redirects(&mut self, redirects: &Vec<Node>, b: usize, Ghost(parent): Ghost<Node>)
        requires
            forall|i: int| 0 <= i < redirects@.len() ==> #[trigger] below(parent, redirects@[i]),
        ensures
            final(self).indentation() == old(self).indentation(),
            trailing_src(redirects@) matches Some(t) ==> final(self).text() == old(self).text() + t,
        decreases b, 2int, parent, 6int,
    {
        let ghost r = redirects@;
        let mut i: usize = 0;
        while i < redirects.len()
            invariant
                self.indentation() == old(self).indentation(),
                i <= redirects@.len(),
                r == redirects@,
                forall|k: int| 0 <= k < redirects@.len() ==> #[trigger] below(parent, redirects@[k]),
                trailing_src(r.subrange(0, i as int)) matches Some(t) ==> self.text() == old(self).text() + t,
            decreases redirects.len() - i,
        {
            self.write_char(' ');
            assert(below(parent, redirects@[i as int]));
            self.format_redirect(&redirects[i], b, Ghost(parent));
            proof {
                let cur = r.subrange(0, i + 1);
                assert(cur.drop_last() =~= r.subrange(0, i as int));
                assert(cur.last() == r[i as int]);
                if trailing_src(cur) is Some {
                    assert(self.text() =~= old(self).text() + trailing_src(cur)->0);
                }
            }
            i = i + 1;
        }
        assert(r.subrange(0, r.len() as int) =~= r);
    }

    /// `var [in w ...];` then the `do ... done` body, shared by `for` and
    /// `select`.
    fn format_for_or_select_tail(&mut self, var: &String, words: &Option<Vec<Node>>, body: &Node, b: usize, Ghost(parent): Ghost<Node>)
        requires
            below(parent, *body),
        ensures
            final(self).indentation() == old(self).indentation(),
            loop_tail_src(var@, *words, *body, old(self).indentation()) matches Some(t) ==> final(self).text() == old(self).text() + t,
        decreases b, 2int, parent, 7int,
    {
        self.write_string(var);
        if let Some(ws) = words {
            self.write_str(" in");
            let ghost start = self.text();
            let mut i: usize = 0;
            while i < ws.len()
                invariant
                    self.indentation() == old(self).indentation(),
                    i <= ws@.len(),
                    self.text() == start + in_words_src(ws@.subrange(0, i as int)),
                decreases ws.len() - i,
            {
                self.write_char(' ');
                if let NodeKind::Word { value, .. } = &ws[i].kind {
                    self.write_string(value);
                }
                proof {
                    let cur = ws@.subrange(0, i + 1);
                    assert(cur.drop_last() =~= ws@.subrange(0, i as int));
                    assert(cur.last() == ws@[i as int]);
                    assert(self.text() =~= start + in_words_src(cur));
                }
                i = i + 1;
            }
            assert(ws@.subrange(0, ws@.len() as int) =~= ws@);
        }
        self.write_str(";\n");
        self.indent_here();
        self.write_str("do\n");
        self.indented_body(body, 4, b, Ghost(parent));
        self.indent_here();
        self.write_str("done");
        proof {
            let t = loop_tail_src(var@, *words, *body, old(self).indentation());
            if t is Some {
                assert(self.text() =~= old(self).text() + t->0);
            }
        }
    }
}

} // verus!
