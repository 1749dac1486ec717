//! Brace expansion detection (`{a,b,c}`, `{1..10}`) on a finished word.
use vstd::prelude::*;
use super::word_builder::{QuotingContext, WordBuilder, WordSpan, WordSpanKind};

verus! {

/// The end of the first recorded span, from index `k` on, that contains `pos`.
pub open spec fn first_span_end(spans: Seq<WordSpan>, pos: int, k: int) -> Option<int>
    decreases spans.len() - k,
{
    if k < 0 || k >= spans.len() {
        None
    } else if spans[k].start <= pos < spans[k].end {
        Some(spans[k].end as int)
    } else {
        first_span_end(spans, pos, k + 1)
    }
}

/// Scanning `v` from `j` inside a brace group opened earlier, at nesting
/// `depth`, with `sep` telling whether a `,` or `..` was already seen at
/// the outer level: the index of the `}` that closes the group when a
/// separator was seen by then, else `None`. Recorded spans are skipped
/// whole.
pub open spec fn brace_close(v: Seq<char>, spans: Seq<WordSpan>, j: int, depth: int, sep: bool) -> Option<int>
    decreases v.len() - j,
{
    if j < 0 || j >= v.len() {
        None
    } else if first_span_end(spans, j, 0) is Some {
        let e = first_span_end(spans, j, 0)->0;
        if e > j {
            brace_close(v, spans, if e < v.len() { e } else { v.len() as int }, depth, sep)
        } else {
            None
        }
    } else if v[j] == '{' {
        brace_close(v, spans, j + 1, if depth < i64::MAX { depth + 1 } else { depth }, sep)
    } else if v[j] == '}' {
        if depth - 1 == 0 {
            if sep { Some(j) } else { None }
        } else {
            brace_close(v, spans, j + 1, depth - 1, sep)
        }
    } else if v[j] == ',' && depth == 1 {
        brace_close(v, spans, j + 1, depth, true)
    } else if v[j] == '.' && depth == 1 && j + 1 < v.len() && v[j + 1] == '.' {
        brace_close(v, spans, j + 1, depth, true)
    } else {
        brace_close(v, spans, j + 1, depth, sep)
    }
}

/// The brace-expansion spans found scanning `v` from `i`: a `{` not after
/// `$` and outside every recorded span starts one when `brace_close`
/// finds its `}`; scanning resumes after that `}`.
pub open spec fn brace_spans(v: Seq<char>, spans: Seq<WordSpan>, i: int) -> Seq<WordSpan>
    decreases v.len() - i,
{
    if i < 0 || i >= v.len() {
        Seq::empty()
    } else if v[i] != '{' || (i > 0 && v[i - 1] == '$') || first_span_end(spans, i, 0) is Some {
        brace_spans(v, spans, i + 1)
    } else if brace_close(v, spans, i + 1, 1, false) is Some && i < brace_close(v, spans, i + 1, 1, false)->0 < v.len() {
        let c = brace_close(v, spans, i + 1, 1, false)->0;
        seq![WordSpan { start: i as usize, end: (c + 1) as usize, kind: WordSpanKind::BraceExpansion, context: QuotingContext::Plain }]
            + brace_spans(v, spans, c + 1)
    } else {
        brace_spans(v, spans, i + 1)
    }
}

/// A word without `{` has no brace expansion.
pub proof fn lemma_no_brace_no_spans(v: Seq<char>, spans: Seq<WordSpan>, i: int)
    requires
        forall|k: int| 0 <= k < v.len() ==> v[k] != '{',
    ensures
        brace_spans(v, spans, i).len() == 0,
    decreases v.len() - i,
{
    if 0 <= i < v.len() {
        lemma_no_brace_no_spans(v, spans, i + 1);
    }
}

/// Scans the finished word for brace expansions and records a span for
/// each one. Positions inside already recorded spans are skipped.
pub fn detect_brace_expansions(wb: &mut WordBuilder)
    ensures
        old(wb).wf() ==> final(wb).wf(),
        final(wb).value@ == old(wb).value@,
        final(wb).context_stack@ == old(wb).context_stack@,
        final(wb).spans@.len() >= old(wb).spans@.len(),
        forall|i: int| 0 <= i < old(wb).spans@.len() ==> final(wb).spans@[i] == old(wb).spans@[i],
        forall|i: int| old(wb).spans@.len() <= i < final(wb).spans@.len() ==> ({
            let s = #[trigger] final(wb).spans@[i];
            &&& s.kind == WordSpanKind::BraceExpansion
            &&& s.start < s.end <= old(wb).value@.len()
            &&& old(wb).value@[s.start as int] == '{'
            &&& old(wb).value@[s.end - 1] == '}'
        }),
        final(wb).spans@ == old(wb).spans@ + brace_spans(old(wb).value@, old(wb).spans@, 0),
{
    let mut new_spans: Vec<WordSpan> = Vec::new();
    let n = wb.value.len();
    let mut i: usize = 0;
    while i < n
        invariant
            n == wb.value@.len(),
            i <= n,
            wb.value@ == old(wb).value@,
            wb.spans@ == old(wb).spans@,
            wb.context_stack@ == old(wb).context_stack@,
            forall|k: int| 0 <= k < new_spans@.len() ==> ({
                let s = #[trigger] new_spans@[k];
                &&& s.kind == WordSpanKind::BraceExpansion
                &&& s.start < s.end <= n
                &&& wb.value@[s.start as int] == '{'
                &&& wb.value@[s.end - 1] == '}'
            }),
            new_spans@ + brace_spans(wb.value@, wb.spans@, i as int) == brace_spans(wb.value@, wb.spans@, 0),
        decreases n - i,
    {
        if wb.value[i] != '{' {
            i = i + 1;
            continue;
        }
        if i > 0 && wb.value[i - 1] == '$' {
            i = i + 1;
            continue;
        }
        if span_end_at(i, wb.spans.as_slice()).is_some() {
            i = i + 1;
            continue;
        }
        match find_brace_close(wb.value.as_slice(), i, wb.spans.as_slice()) {
            Some(close) => {
                let sp = WordSpan {
                    start: i,
                    end: close + 1,
                    kind: WordSpanKind::BraceExpansion,
                    context: QuotingContext::Plain,
                };
                let ghost prev = new_spans@;
                new_spans.push(sp);
                proof {
                    let tail = brace_spans(wb.value@, wb.spans@, close + 1);
                    assert(brace_spans(wb.value@, wb.spans@, i as int) == seq![sp] + tail);
                    assert(new_spans@ + tail =~= prev + (seq![sp] + tail));
                }
                i = close + 1;
            }
            None => {
                i = i + 1;
            }
        }
    }
    let mut k: usize = 0;
    let ghost base = wb.spans@;
    while k < new_spans.len()
        invariant
            k <= new_spans@.len(),
            base == old(wb).spans@,
            wb.value@ == old(wb).value@,
            wb.context_stack@ == old(wb).context_stack@,
            wb.spans@ == base + new_spans@.subrange(0, k as int),
            new_spans@ == brace_spans(old(wb).value@, old(wb).spans@, 0),
            forall|m: int| 0 <= m < new_spans@.len() ==> ({
                let s = #[trigger] new_spans@[m];
                &&& s.kind == WordSpanKind::BraceExpansion
                &&& s.start < s.end <= n
                &&& old(wb).value@[s.start as int] == '{'
                &&& old(wb).value@[s.end - 1] == '}'
            }),
            n == old(wb).value@.len(),
        decreases new_spans.len() - k,
    {
        wb.spans.push(new_spans[k]);
        assert(new_spans@.subrange(0, k + 1) =~= new_spans@.subrange(0, k as int).push(new_spans@[k as int]));
        k = k + 1;
    }
    assert forall|i: int| old(wb).spans@.len() <= i < wb.spans@.len() implies ({
        let s = #[trigger] wb.spans@[i];
        &&& s.kind == WordSpanKind::BraceExpansion
        &&& s.start < s.end <= old(wb).value@.len()
        &&& old(wb).value@[s.start as int] == '{'
        &&& old(wb).value@[s.end - 1] == '}'
    }) by {
        assert(wb.spans@[i] == new_spans@[i - old(wb).spans@.len()]);
    }
    assert(new_spans@.subrange(0, new_spans@.len() as int) =~= new_spans@);
}

/// The index of the `}` that closes the `{` at `open`, provided a `,` or
/// `..` occurs between them at the outer brace level; positions inside
/// recorded spans are skipped.
pub fn find_brace_close(value: &[char], open: usize, spans: &[WordSpan]) -> (r: Option<usize>)
    requires
        open < value@.len(),
    ensures
        r is Some ==> open < r->0 < value@.len() && value@[r->0 as int] == '}',
        r is Some <==> brace_close(value@, spans@, open + 1, 1, false) is Some,
        r matches Some(c) ==> brace_close(value@, spans@, open + 1, 1, false) == Some(c as int),
{
    let mut depth: i64 = 1;
    let mut has_comma = false;
    let mut has_dotdot = false;
    let n = value.len();
    let mut j = open + 1;
    while j < n
        invariant
            open < j <= n,
            n == value@.len(),
            depth >= 1,
            brace_close(value@, spans@, j as int, depth as int, has_comma || has_dotdot)
                == brace_close(value@, spans@, open + 1, 1, false),
        decreases n - j,
    {
        match span_end_at(j, spans) {
            Some(end) => {
                j = if end < n { end } else { n };
                continue;
            }
            None => {},
        }
        let c = value[j];
        if c == '{' {
            if depth < i64::MAX {
                depth = depth + 1;
            }
        } else if c == '}' {
            depth = depth - 1;
            if depth == 0 {
                if has_comma || has_dotdot {
                    return Some(j);
                }
                return None;
            }
        } else if c == ',' && depth == 1 {
            has_comma = true;
        } else if c == '.' && depth == 1 && j + 1 < value.len() && value[j + 1] == '.' {
            has_dotdot = true;
        }
        j = j + 1;
    }
    None
}

/// If `pos` falls inside a recorded span, the end of the first such span.
pub fn span_end_at(pos: usize, spans: &[WordSpan]) -> (r: Option<usize>)
    ensures
        r matches Some(e) ==> first_span_end(spans@, pos as int, 0) == Some(e as int),
        r is None ==> first_span_end(spans@, pos as int, 0) is None,
        r is Some ==> exists|i: int| 0 <= i < spans@.len() && spans@[i].start <= pos < spans@[i].end
            && r->0 == spans@[i].end,
        r is Some ==> r->0 > pos,
        r is None ==> forall|i: int| 0 <= i < spans@.len() ==> !(#[trigger] spans@[i].start <= pos < spans@[i].end),
{
    let mut i: usize = 0;
    while i < spans.len()
        invariant
            i <= spans@.len(),
            forall|k: int| 0 <= k < i ==> !(#[trigger] spans@[k].start <= pos < spans@[k].end),
            first_span_end(spans@, pos as int, i as int) == first_span_end(spans@, pos as int, 0),
        decreases spans.len() - i,
    {
        let s = spans[i];
        if s.start <= pos && pos < s.end {
            return Some(s.end);
        }
        i = i + 1;
    }
    None
}

} // verus!
