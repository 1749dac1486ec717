//! What the parser builds from plain command lines (see
//! `lexer::stream`): a run of words makes a simple command, `|` joins
//! simple commands into a pipeline, `;` joins pipelines into a list, and
//! each line that is not blank gives one node.
use vstd::prelude::*;
use crate::ast::{ListOperator, Node, PipeSep};
use crate::lexer::stream::{is_plain_token, plain_ahead, plain_rest, plain_tok_of, PlainTok};
use crate::token::TokenType;
use super::Parser;

verus! {

/// The parser reads plain tokens and has the next one read ahead.
pub open spec fn plain_ready(p: Parser) -> bool {
    plain_ahead(p.lexer) && p.lexer.peeked is Some
}

/// The plain tokens still ahead of the parser.
pub open spec fn toks(p: Parser) -> Seq<PlainTok> {
    plain_rest(p.lexer)
}

/// At least `per` steps for each token and one for each character left,
/// and `c` more.
pub open spec fn fuel_for(p: Parser, per: int, c: int) -> bool {
    p.lexer.fuel.budget >= (p.lexer.input@.len() - p.lexer.pos) + per * toks(p).len() + c
}

/// From `a` to `b` the parser moved on, and spent no more than one step
/// per character passed, `per` per token consumed and `c` more.
pub open spec fn spent_on(a: Parser, b: Parser, per: int, c: int) -> bool {
    &&& a.lexer.pos <= b.lexer.pos
    &&& toks(b).len() <= toks(a).len()
    &&& b.lexer.fuel.budget + (b.lexer.pos - a.lexer.pos) + per * (toks(a).len() - toks(b).len()) + c >= a.lexer.fuel.budget
}

/// The end of the run of word tokens starting at `i`.
pub open spec fn words_end(ts: Seq<PlainTok>, i: int) -> int
    decreases ts.len() - i,
{
    if 0 <= i < ts.len() && ts[i] is Word { words_end(ts, i + 1) } else { i }
}

/// `n` is the simple command made of the word tokens `ts[i..j]`.
pub open spec fn command_of(n: Node, ts: Seq<PlainTok>, i: int, j: int) -> bool {
    &&& n.kind is Command
    &&& n.kind->Command_assignments@.len() == 0
    &&& n.kind->Command_redirects@.len() == 0
    &&& n.kind->Command_words@.len() == j - i
    &&& forall|k: int| 0 <= k < j - i ==> (#[trigger] n.kind->Command_words@[k]).kind is Word
        && n.kind->Command_words@[k].kind->Word_value@ == ts[i + k]->Word_0
}

/// One line of plain words: at least one word and nothing else.
pub open spec fn word_line(ts: Seq<PlainTok>) -> bool {
    &&& ts.len() > 0
    &&& forall|i: int| 0 <= i < ts.len() ==> #[trigger] ts[i] is Word
}

/// `ts[i..]` is one pipeline of plain words: runs of words joined by `|`,
/// up to the end.
pub open spec fn pipe_line(ts: Seq<PlainTok>, i: int) -> bool
    decreases ts.len() - i,
{
    let j = words_end(ts, i);
    if 0 <= i && i < j && j <= ts.len() {
        if j == ts.len() { true } else { ts[j] is Pipe && pipe_line(ts, j + 1) }
    } else {
        false
    }
}

/// `ts[i..]` starts with a pipeline of plain words that ends at the end
/// of the tokens or before a `;` or a newline.
pub open spec fn pipe_ok(ts: Seq<PlainTok>, i: int) -> bool
    decreases ts.len() - i,
{
    let j = words_end(ts, i);
    if 0 <= i && i < j && j <= ts.len() {
        if j == ts.len() { true } else if ts[j] is Pipe { pipe_ok(ts, j + 1) } else { ts[j] is Semi || ts[j] is Newline }
    } else {
        false
    }
}

/// Where the pipeline that starts at `i` ends.
pub open spec fn pipe_end(ts: Seq<PlainTok>, i: int) -> int
    decreases ts.len() - i,
{
    let j = words_end(ts, i);
    if 0 <= i && i < j && j < ts.len() && ts[j] is Pipe { pipe_end(ts, j + 1) } else { j }
}

/// The number of commands in the pipeline that starts at `i`.
pub open spec fn pipe_count(ts: Seq<PlainTok>, i: int) -> nat
    decreases ts.len() - i,
{
    let j = words_end(ts, i);
    if 0 <= i && i < j && j < ts.len() && ts[j] is Pipe { 1 + pipe_count(ts, j + 1) } else { 1 }
}

/// `ts[i..]` starts with pipelines joined by `;`, up to the end of the
/// tokens or a newline.
pub open spec fn list_ok(ts: Seq<PlainTok>, i: int) -> bool
    decreases ts.len() - i,
{
    let e = pipe_end(ts, i);
    if pipe_ok(ts, i) && i < e {
        if e == ts.len() {
            true
        } else if e < ts.len() {
            ts[e] is Newline || (!closes_group(ts, e + 1) && list_ok(ts, e + 1))
        } else {
            false
        }
    } else {
        false
    }
}

/// The token at `i` is the word `}` or `]]`, which ends a list.
pub open spec fn closes_group(ts: Seq<PlainTok>, i: int) -> bool {
    0 <= i < ts.len() && ts[i] is Word && (ts[i]->Word_0 == seq!['}'] || ts[i]->Word_0 == seq![']', ']'])
}

/// Where the pipelines of the list that starts at `i` start.
pub open spec fn list_starts(ts: Seq<PlainTok>, i: int) -> Seq<int>
    decreases ts.len() - i,
{
    let e = pipe_end(ts, i);
    if pipe_ok(ts, i) && i < e && e < ts.len() && ts[e] is Semi { seq![i] + list_starts(ts, e + 1) } else { seq![i] }
}

/// Where the list that starts at `i` ends.
pub open spec fn list_end(ts: Seq<PlainTok>, i: int) -> int
    decreases ts.len() - i,
{
    let e = pipe_end(ts, i);
    if pipe_ok(ts, i) && i < e && e < ts.len() && ts[e] is Semi { list_end(ts, e + 1) } else { e }
}

/// The tokens without the newlines they start with.
pub open spec fn drop_newlines(ts: Seq<PlainTok>) -> Seq<PlainTok>
    decreases ts.len(),
{
    if ts.len() > 0 && ts[0] is Newline { drop_newlines(ts.drop_first()) } else { ts }
}

/// The lines of `ts`, each given by the tokens from its start on, with
/// blank lines left out; `None` unless each line is a list of plain
/// pipelines.
pub open spec fn doc_lines(ts: Seq<PlainTok>) -> Option<Seq<Seq<PlainTok>>>
    decreases ts.len(),
{
    if ts.len() == 0 {
        Some(Seq::empty())
    } else if ts[0] is Newline {
        doc_lines(ts.drop_first())
    } else if list_ok(ts, 0) && 0 < list_end(ts, 0) <= ts.len() {
        match doc_lines(ts.subrange(list_end(ts, 0), ts.len() as int)) {
            Some(rest) => Some(seq![ts] + rest),
            None => None,
        }
    } else {
        None
    }
}

/// `v` are the nodes of the lines `ls`, one each, in order.
pub open spec fn lines_of(v: Seq<Node>, ls: Seq<Seq<PlainTok>>) -> bool {
    &&& v.len() == ls.len()
    &&& forall|k: int| 0 <= k < v.len() ==> #[trigger] semi_list_of(v[k], ls[k], list_starts(ls[k], 0))
}

/// A list ends past its start, at the end of the tokens or at a newline.
pub proof fn lemma_list_end(ts: Seq<PlainTok>, i: int)
    requires
        list_ok(ts, i),
    ensures
        i < list_end(ts, i) <= ts.len(),
        list_end(ts, i) == ts.len() || ts[list_end(ts, i)] is Newline,
    decreases ts.len() - i,
{
    let e = pipe_end(ts, i);
    lemma_pipe_end(ts, i);
    if e < ts.len() && ts[e] is Semi {
        lemma_list_end(ts, e + 1);
    }
}

/// One list up to the end of the tokens is one line.
pub proof fn lemma_one_line(ts: Seq<PlainTok>)
    requires
        list_ok(ts, 0),
        list_end(ts, 0) == ts.len(),
    ensures
        doc_lines(ts) == Some(seq![ts]),
{
    lemma_list_step(ts, 0, 0);
    lemma_pipe_end(ts, 0);
    lemma_list_end(ts, 0);
    let e = ts.subrange(ts.len() as int, ts.len() as int);
    assert(e.len() == 0);
    assert(doc_lines(e) == Some(Seq::<Seq<PlainTok>>::empty()));
    assert(seq![ts] + Seq::<Seq<PlainTok>>::empty() =~= seq![ts]);
}

/// Leading newlines do not change the lines.
pub proof fn lemma_drop_newlines(ts: Seq<PlainTok>)
    ensures
        doc_lines(drop_newlines(ts)) == doc_lines(ts),
        drop_newlines(ts).len() > 0 ==> !(drop_newlines(ts)[0] is Newline),
        drop_newlines(ts).len() <= ts.len(),
        drop_newlines(ts) == ts.subrange(ts.len() - drop_newlines(ts).len(), ts.len() as int),
    decreases ts.len(),
{
    if ts.len() > 0 && ts[0] is Newline {
        lemma_drop_newlines(ts.drop_first());
        assert(ts.drop_first().subrange(ts.drop_first().len() - drop_newlines(ts).len(), ts.drop_first().len() as int)
            =~= ts.subrange(ts.len() - drop_newlines(ts).len(), ts.len() as int));
    } else {
        assert(ts.subrange(0, ts.len() as int) =~= ts);
    }
}

/// `n` is the list of the pipelines that start at `starts`, joined by `;`
/// and nested to the left; each pipeline is read from the tokens that
/// start with it.
pub open spec fn semi_list_of(n: Node, ts: Seq<PlainTok>, starts: Seq<int>) -> bool
    decreases starts.len(),
{
    if starts.len() <= 1 {
        starts.len() == 1 && pipeline_of(n, ts.subrange(starts[0], ts.len() as int), 0)
    } else {
        &&& n.kind is List
        &&& n.kind->List_items@.len() == 2
        &&& n.kind->List_items@[0].operator == Some(ListOperator::Semi)
        &&& n.kind->List_items@[1].operator is None
        &&& semi_list_of(n.kind->List_items@[0].command, ts, starts.drop_last())
        &&& pipeline_of(n.kind->List_items@[1].command, ts.subrange(starts.last(), ts.len() as int), 0)
    }
}

/// `b` is `a` after reading the plain tokens before `e`, at the same depth
/// and within the steps that `spent_on` allows; it moved on if anything is
/// left.
pub open spec fn read_to(a: Parser, b: Parser, e: int, per: int, c: int) -> bool {
    &&& plain_ready(b)
    &&& toks(b) == toks(a).subrange(e, toks(a).len() as int)
    &&& spent_on(a, b, per, c)
    &&& b.depth == a.depth
    &&& (toks(b).len() > 0 ==> b.lexer.pos > a.lexer.pos)
}

/// Where the `m`-th command of the pipeline that starts at `i` starts.
pub open spec fn pipe_start(ts: Seq<PlainTok>, i: int, m: nat) -> int
    decreases m,
{
    if m == 0 { i } else { pipe_start(ts, words_end(ts, i) + 1, (m - 1) as nat) }
}

/// `n` is what the pipeline at `i` parses to: its one simple command, or
/// a `Pipeline` of its simple commands joined by `|`.
pub open spec fn pipeline_of(n: Node, ts: Seq<PlainTok>, i: int) -> bool {
    if pipe_count(ts, i) == 1 {
        command_of(n, ts, i, words_end(ts, i))
    } else {
        &&& n.kind is Pipeline
        &&& n.kind->Pipeline_commands@.len() == pipe_count(ts, i)
        &&& n.kind->Pipeline_separators@.len() + 1 == pipe_count(ts, i)
        &&& forall|m: int| 0 <= m < n.kind->Pipeline_separators@.len()
            ==> #[trigger] n.kind->Pipeline_separators@[m] == PipeSep::Pipe
        &&& forall|m: int| 0 <= m < pipe_count(ts, i) ==> command_of(#[trigger] n.kind->Pipeline_commands@[m], ts,
            pipe_start(ts, i, m as nat), words_end(ts, pipe_start(ts, i, m as nat)))
    }
}

/// The next plain token is a word.
pub open spec fn word_first(p: Parser) -> bool {
    &&& plain_ready(p)
    &&& toks(p).len() > 0
    &&& toks(p)[0] is Word
}

/// From `a` to `b` the parser read the simple command `r` made of the run
/// of words ahead of `a`, and nothing more.
pub open spec fn read_command(a: Parser, b: Parser, r: Node, per: int, c: int) -> bool {
    let ts = toks(a);
    let j = words_end(ts, 0);
    &&& command_of(r, ts, 0, j)
    &&& plain_ready(b)
    &&& toks(b) == ts.subrange(j, ts.len() as int)
    &&& spent_on(a, b, per, c)
    &&& b.depth == a.depth
    &&& (toks(b).len() > 0 ==> b.lexer.pos > a.lexer.pos)
}

/// Stepping through a pipeline: each command starts where the run of words
/// before it ends, past its `|`; the last one ends the pipeline.
pub proof fn lemma_pipe_step(ts: Seq<PlainTok>, i: int, m: nat)
    requires
        pipe_ok(ts, i),
        m < pipe_count(ts, i),
    ensures
        pipe_ok(ts, pipe_start(ts, i, m)),
        pipe_end(ts, pipe_start(ts, i, m)) == pipe_end(ts, i),
        m + 1 < pipe_count(ts, i) <==> (words_end(ts, pipe_start(ts, i, m)) < ts.len()
            && ts[words_end(ts, pipe_start(ts, i, m))] is Pipe),
        m + 1 < pipe_count(ts, i) ==> pipe_start(ts, i, m + 1) == words_end(ts, pipe_start(ts, i, m)) + 1,
        m + 1 == pipe_count(ts, i) ==> words_end(ts, pipe_start(ts, i, m)) == pipe_end(ts, i),
    decreases m,
{
    let j = words_end(ts, i);
    if m > 0 {
        lemma_pipe_step(ts, j + 1, (m - 1) as nat);
        assert(pipe_start(ts, i, m + 1) == pipe_start(ts, j + 1, m));
    } else {
        assert(pipe_start(ts, i, 1) == pipe_start(ts, j + 1, 0));
        if j < ts.len() && ts[j] is Pipe {
            assert(pipe_count(ts, j + 1) >= 1);
        }
    }
}

/// A pipeline ends at the end of the tokens or at a `;`, past its first
/// word.
pub proof fn lemma_pipe_end(ts: Seq<PlainTok>, i: int)
    requires
        pipe_ok(ts, i),
    ensures
        i < words_end(ts, i) <= pipe_end(ts, i) <= ts.len(),
        pipe_end(ts, i) == ts.len() || ts[pipe_end(ts, i)] is Semi || ts[pipe_end(ts, i)] is Newline,
        ts[i] is Word,
    decreases ts.len() - i,
{
    let j = words_end(ts, i);
    lemma_words_end_bound(ts, i);
    if j < ts.len() && ts[j] is Pipe {
        lemma_pipe_end(ts, j + 1);
    }
}

/// A pipeline read from a suffix of the tokens is the same pipeline,
/// shifted.
pub proof fn lemma_pipe_shift(ts: Seq<PlainTok>, p: int, k: int)
    requires
        0 <= p <= ts.len(),
        0 <= k <= ts.len() - p,
    ensures
        pipe_ok(ts.subrange(p, ts.len() as int), k) == pipe_ok(ts, p + k),
        pipe_end(ts.subrange(p, ts.len() as int), k) + p == pipe_end(ts, p + k),
    decreases ts.len() - p - k,
{
    let sub = ts.subrange(p, ts.len() as int);
    lemma_words_end_shift(ts, p, k);
    lemma_words_end_bound(sub, k);
    let j = words_end(sub, k);
    if j < sub.len() {
        assert(sub[j] == ts[p + j]);
    }
    if k < j && j < sub.len() && sub[j] is Pipe {
        lemma_pipe_shift(ts, p, j + 1);
    }
}

/// Stepping through a list: each pipeline starts past the `;` that ends
/// the one before it; the last one ends the tokens.
pub proof fn lemma_list_step(ts: Seq<PlainTok>, i: int, m: int)
    requires
        list_ok(ts, i),
        0 <= m < list_starts(ts, i).len(),
    ensures
        list_ok(ts, list_starts(ts, i)[m]),
        pipe_ok(ts, list_starts(ts, i)[m]),
        list_starts(ts, i)[0] == i,
        m + 1 < list_starts(ts, i).len() <==> (pipe_end(ts, list_starts(ts, i)[m]) < ts.len()
            && ts[pipe_end(ts, list_starts(ts, i)[m])] is Semi),
        m + 1 < list_starts(ts, i).len() ==> list_starts(ts, i)[m + 1] == pipe_end(ts, list_starts(ts, i)[m]) + 1
            && !closes_group(ts, list_starts(ts, i)[m + 1]),
        m + 1 == list_starts(ts, i).len() ==> pipe_end(ts, list_starts(ts, i)[m]) == list_end(ts, i),
    decreases ts.len() - i,
{
    let e = pipe_end(ts, i);
    lemma_pipe_end(ts, i);
    if e < ts.len() && ts[e] is Semi {
        let rest = list_starts(ts, e + 1);
        assert(list_starts(ts, i) == seq![i] + rest);
        if m > 0 {
            lemma_list_step(ts, e + 1, m - 1);
            assert(list_starts(ts, i)[m] == rest[m - 1]);
            if m + 1 < list_starts(ts, i).len() {
                assert(list_starts(ts, i)[m + 1] == rest[m]);
            }
        } else {
            lemma_list_step(ts, e + 1, 0);
            assert(list_starts(ts, i)[1] == rest[0]);
        }
    } else {
        assert(list_starts(ts, i) == seq![i]);
    }
}

/// A pipeline up to the end of the tokens is a list of one pipeline.
pub proof fn lemma_pipe_line_list(ts: Seq<PlainTok>, n: Node)
    requires
        pipe_line(ts, 0),
    ensures
        list_ok(ts, 0),
        list_starts(ts, 0) == seq![0int],
        list_end(ts, 0) == ts.len(),
        semi_list_of(n, ts, list_starts(ts, 0)) == pipeline_of(n, ts, 0),
{
    lemma_pipe_line_ok(ts, 0);
    lemma_pipe_end(ts, 0);
    assert(ts.subrange(0, ts.len() as int) =~= ts);
}

/// A pipeline up to the end of the tokens.
pub proof fn lemma_pipe_line_ok(ts: Seq<PlainTok>, i: int)
    requires
        pipe_line(ts, i),
    ensures
        pipe_ok(ts, i),
        pipe_end(ts, i) == ts.len(),
    decreases ts.len() - i,
{
    let j = words_end(ts, i);
    if j < ts.len() {
        lemma_pipe_line_ok(ts, j + 1);
    }
}

/// The run of words of a suffix is the run of words of the whole, shifted.
pub proof fn lemma_words_end_shift(ts: Seq<PlainTok>, p: int, k: int)
    requires
        0 <= p <= ts.len(),
        0 <= k <= ts.len() - p,
    ensures
        words_end(ts.subrange(p, ts.len() as int), k) + p == words_end(ts, p + k),
    decreases ts.len() - p - k,
{
    let u = ts.subrange(p, ts.len() as int);
    if k < u.len() && u[k] is Word {
        lemma_words_end_shift(ts, p, k + 1);
    }
}

/// A simple command read from a suffix, in the indices of the whole.
pub proof fn lemma_command_shift(n: Node, ts: Seq<PlainTok>, p: int, e: int)
    requires
        0 <= p <= ts.len(),
        0 <= e <= ts.len() - p,
        command_of(n, ts.subrange(p, ts.len() as int), 0, e),
    ensures
        command_of(n, ts, p, p + e),
{
    assert forall|k: int| 0 <= k < e implies (#[trigger] n.kind->Command_words@[k]).kind is Word
        && n.kind->Command_words@[k].kind->Word_value@ == ts[p + k]->Word_0 by {
        assert(ts.subrange(p, ts.len() as int)[k] == ts[p + k]);
    }
}

/// One line of plain words is a pipeline of one command.
pub proof fn lemma_word_line_pipe(ts: Seq<PlainTok>)
    requires
        word_line(ts),
    ensures
        pipe_line(ts, 0),
        pipe_count(ts, 0) == 1,
        words_end(ts, 0) == ts.len(),
{
    lemma_words_end_all(ts, 0);
}

/// `b` is `a` after reading all its plain tokens, at the same depth and
/// within the steps that `spent_on` allows.
pub open spec fn read_all(a: Parser, b: Parser, per: int, c: int) -> bool {
    &&& plain_ready(b)
    &&& toks(b).len() == 0
    &&& spent_on(a, b, per, c)
    &&& b.depth == a.depth
}

/// When every token is a word, the run of words reaches the end.
pub proof fn lemma_words_end_all(ts: Seq<PlainTok>, i: int)
    requires
        0 <= i <= ts.len(),
        forall|k: int| 0 <= k < ts.len() ==> #[trigger] ts[k] is Word,
    ensures
        words_end(ts, i) == ts.len(),
    decreases ts.len() - i,
{
    if i < ts.len() {
        lemma_words_end_all(ts, i + 1);
    }
}

/// The run of word tokens from `i` reaches its end from any point in it;
/// every token before its end is a word.
pub proof fn lemma_words_end(ts: Seq<PlainTok>, i: int, k: int)
    requires
        0 <= i <= k <= words_end(ts, i),
    ensures
        words_end(ts, k) == words_end(ts, i),
        k < words_end(ts, i) ==> ts[k] is Word,
    decreases k - i,
{
    if k > i {
        lemma_words_end(ts, i + 1, k);
    }
}

/// The run of word tokens ends within the tokens.
pub proof fn lemma_words_end_bound(ts: Seq<PlainTok>, i: int)
    requires
        0 <= i <= ts.len(),
    ensures
        i <= words_end(ts, i) <= ts.len(),
    decreases ts.len() - i,
{
    if i < ts.len() && ts[i] is Word {
        lemma_words_end_bound(ts, i + 1);
    }
}

/// The token read ahead is the first plain token left, or the end of
/// input when none is left.
pub proof fn lemma_peeked_first(p: Parser)
    requires
        plain_ready(p),
    ensures
        toks(p).len() > 0 ==> is_plain_token(p.lexer.peeked->0) && plain_tok_of(p.lexer.peeked->0) == toks(p)[0],
        toks(p).len() == 0 ==> p.lexer.peeked->0.kind == TokenType::Eof,
        p.lexer.peeked->0.kind == TokenType::Eof ==> toks(p).len() == 0,
        is_plain_token(p.lexer.peeked->0) ==> (p.lexer.peeked->0.kind == TokenType::Word <==> toks(p)[0] is Word),
{
}

} // verus!
