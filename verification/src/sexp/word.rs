//! Splitting a word value into typed segments using the lexer's spans.
use vstd::prelude::*;
use crate::lexer::word_builder::{QuotingContext, WordSpan, WordSpanKind};
use crate::text::{extend_chars, slice_chars};
use super::ansi_c::{ansi_processed, process_ansi_c_content};

verus! {

/// A typed segment within a word's raw value.
#[derive(Debug, Clone, PartialEq, Eq)]
pub enum WordSegment {
    /// Regular text.
    Literal(Vec<char>),
    /// ANSI-C quoted string `$'...'`: the raw body between the quotes.
    AnsiCQuote(Vec<char>),
    /// Locale string `$"..."`: the body with its `"` delimiters.
    LocaleString(Vec<char>),
    /// Arithmetic substitution `$((...))`: the text between `$((` and `))`.
    ArithmeticSub(Vec<char>),
    /// Command substitution: the text between the parentheses (or backticks).
    CommandSubstitution(Vec<char>),
    /// Process substitution: direction and the text between the parentheses.
    ProcessSubstitution(char, Vec<char>),
    /// Parameter expansion `${...}` including `${` and `}`.
    ParamExpansion(Vec<char>),
    /// Simple variable `$var` including the `$`.
    SimpleVar(Vec<char>),
    /// Brace expansion including the braces.
    BraceExpansion(Vec<char>),
}

/// What a segment holds, as character sequences.
pub enum SegmentView {
    Literal(Seq<char>),
    AnsiCQuote(Seq<char>),
    LocaleString(Seq<char>),
    ArithmeticSub(Seq<char>),
    CommandSubstitution(Seq<char>),
    ProcessSubstitution(char, Seq<char>),
    ParamExpansion(Seq<char>),
    SimpleVar(Seq<char>),
    BraceExpansion(Seq<char>),
}

impl View for WordSegment {
    type V = SegmentView;

    open spec fn view(&self) -> SegmentView {
        match self {
            WordSegment::Literal(t) => SegmentView::Literal(t@),
            WordSegment::AnsiCQuote(t) => SegmentView::AnsiCQuote(t@),
            WordSegment::LocaleString(t) => SegmentView::LocaleString(t@),
            WordSegment::ArithmeticSub(t) => SegmentView::ArithmeticSub(t@),
            WordSegment::CommandSubstitution(t) => SegmentView::CommandSubstitution(t@),
            WordSegment::ProcessSubstitution(d, t) => SegmentView::ProcessSubstitution(*d, t@),
            WordSegment::ParamExpansion(t) => SegmentView::ParamExpansion(t@),
            WordSegment::SimpleVar(t) => SegmentView::SimpleVar(t@),
            WordSegment::BraceExpansion(t) => SegmentView::BraceExpansion(t@),
        }
    }
}

/// The views of a list of segments.
pub open spec fn seg_views(s: Seq<WordSegment>) -> Seq<SegmentView> {
    Seq::new(s.len(), |i: int| s[i]@)
}

/// Text appended to the last literal segment, or a new literal segment.
pub open spec fn push_lit(v: Seq<SegmentView>, t: Seq<char>) -> Seq<SegmentView> {
    if v.len() > 0 && v.last() is Literal {
        v.drop_last().push(SegmentView::Literal(v.last()->Literal_0 + t))
    } else {
        v.push(SegmentView::Literal(t))
    }
}

/// `value[a..b]` when `0 <= a <= b <= value.len()`.
pub open spec fn piece(value: Seq<char>, a: int, b: int) -> Option<Seq<char>> {
    if 0 <= a <= b <= value.len() { Some(value.subrange(a, b)) } else { None }
}

/// `v` with `f` of the piece pushed, when the piece exists.
pub open spec fn push_piece(v: Seq<SegmentView>, p: Option<Seq<char>>, f: spec_fn(Seq<char>) -> SegmentView) -> Seq<SegmentView> {
    match p {
        Some(t) => v.push(f(t)),
        None => v,
    }
}

/// `v` with the piece added as literal text, when the piece exists.
pub open spec fn lit_piece(v: Seq<SegmentView>, p: Option<Seq<char>>) -> Seq<SegmentView> {
    match p {
        Some(t) => push_lit(v, t),
        None => v,
    }
}

/// The segments after one selected span has been converted.
pub open spec fn span_effect(v: Seq<SegmentView>, value: Seq<char>, span: WordSpan) -> Seq<SegmentView> {
    let st = span.start as int;
    let en = span.end as int;
    match span.kind {
        WordSpanKind::CommandSub => push_piece(v, piece(value, st + 2, en - 1), |t: Seq<char>| SegmentView::CommandSubstitution(t)),
        WordSpanKind::ProcessSub(dir) => push_piece(v, piece(value, st + 2, en - 1), |t: Seq<char>| SegmentView::ProcessSubstitution(dir, t)),
        WordSpanKind::AnsiCQuote =>
            if span.context == QuotingContext::DoubleQuote {
                lit_piece(v, piece(value, st, en))
            } else if span.context == QuotingContext::ParamExpansion {
                match piece(value, st + 2, en - 1) {
                    Some(raw) => push_lit(v, ansi_processed(raw, 0).0),
                    None => v,
                }
            } else {
                push_piece(v, piece(value, st + 2, en - 1), |t: Seq<char>| SegmentView::AnsiCQuote(t))
            },
        WordSpanKind::ArithmeticSub =>
            if st + 5 <= en { push_piece(v, piece(value, st + 3, en - 2), |t: Seq<char>| SegmentView::ArithmeticSub(t)) } else { v },
        WordSpanKind::LocaleString =>
            if span.context == QuotingContext::DoubleQuote {
                lit_piece(v, piece(value, st, en))
            } else {
                push_piece(v, piece(value, st + 1, en), |t: Seq<char>| SegmentView::LocaleString(t))
            },
        WordSpanKind::ParamExpansion => push_piece(v, piece(value, st, en), |t: Seq<char>| SegmentView::ParamExpansion(t)),
        WordSpanKind::SimpleVar => push_piece(v, piece(value, st, en), |t: Seq<char>| SegmentView::SimpleVar(t)),
        WordSpanKind::BraceExpansion => push_piece(v, piece(value, st, en), |t: Seq<char>| SegmentView::BraceExpansion(t)),
        WordSpanKind::Backtick =>
            if st + 1 < en { push_piece(v, piece(value, st + 1, en - 1), |t: Seq<char>| SegmentView::CommandSubstitution(t)) } else { v },
        _ => v,
    }
}

/// Span kinds that the S-expression printer treats specially.
pub open spec fn spec_is_sexp_relevant(k: WordSpanKind) -> bool {
    match k {
        WordSpanKind::CommandSub | WordSpanKind::AnsiCQuote | WordSpanKind::LocaleString
        | WordSpanKind::ProcessSub(_) => true,
        _ => false,
    }
}

/// Span kinds that decompose into their own word parts.
pub open spec fn spec_is_decomposable(k: WordSpanKind) -> bool {
    spec_is_sexp_relevant(k) || match k {
        WordSpanKind::ParamExpansion | WordSpanKind::SimpleVar | WordSpanKind::BraceExpansion
        | WordSpanKind::ArithmeticSub | WordSpanKind::Backtick => true,
        _ => false,
    }
}

/// True for span kinds the S-expression printer treats specially.
pub fn is_sexp_relevant(k: WordSpanKind) -> (r: bool)
    ensures
        r == spec_is_sexp_relevant(k),
{
    match k {
        WordSpanKind::CommandSub | WordSpanKind::AnsiCQuote | WordSpanKind::LocaleString
        | WordSpanKind::ProcessSub(_) => true,
        _ => false,
    }
}

/// True for span kinds that decompose into their own word parts.
pub fn is_decomposable(k: WordSpanKind) -> (r: bool)
    ensures
        r == spec_is_decomposable(k),
{
    if is_sexp_relevant(k) {
        return true;
    }
    match k {
        WordSpanKind::ParamExpansion | WordSpanKind::SimpleVar | WordSpanKind::BraceExpansion
        | WordSpanKind::ArithmeticSub | WordSpanKind::Backtick => true,
        _ => false,
    }
}

/// Whether the filter keeps a span of this kind.
pub open spec fn keeps(k: WordSpanKind, decompose: bool) -> bool {
    if decompose { spec_is_decomposable(k) } else { spec_is_sexp_relevant(k) }
}

/// `s` inserted after every element whose start is not greater than its own.
pub open spec fn ins_sorted(v: Seq<WordSpan>, s: WordSpan) -> Seq<WordSpan>
    decreases v.len(),
{
    if v.len() == 0 || v.last().start <= s.start {
        v.push(s)
    } else {
        ins_sorted(v.drop_last(), s).push(v.last())
    }
}

/// The kept spans among the first `k`, ordered by start; spans with the
/// same start stay in their order.
pub open spec fn sorted_kept(spans: Seq<WordSpan>, k: int, decompose: bool) -> Seq<WordSpan>
    decreases k,
{
    if k <= 0 {
        Seq::empty()
    } else {
        let r = sorted_kept(spans, k - 1, decompose);
        if keeps(spans[k - 1].kind, decompose) { ins_sorted(r, spans[k - 1]) } else { r }
    }
}

/// Of the first `k` spans, those that start at or after the end of every
/// span kept before them, and the offset those cover.
pub open spec fn outermost(rel: Seq<WordSpan>, k: int) -> (Seq<WordSpan>, int)
    decreases k,
{
    if k <= 0 {
        (Seq::empty(), 0)
    } else {
        let (res, cov) = outermost(rel, k - 1);
        let s = rel[k - 1];
        if s.start >= cov { (res.push(s), if s.end > cov { s.end as int } else { cov }) } else { (res, cov) }
    }
}

/// The spans a word is split at: the kept ones, by start, outermost only.
pub open spec fn filtered_spans(spans: Seq<WordSpan>, decompose: bool) -> Seq<WordSpan> {
    let rel = sorted_kept(spans, spans.len() as int, decompose);
    outermost(rel, rel.len() as int).0
}

/// The segments and the offset reached after the first `k` spans.
pub open spec fn build_state(value: Seq<char>, top: Seq<WordSpan>, k: int) -> (Seq<SegmentView>, int)
    decreases k,
{
    if k <= 0 {
        (Seq::empty(), 0)
    } else {
        let (segs, pos) = build_state(value, top, k - 1);
        let span = top[k - 1];
        let with_gap = if span.start > pos {
            match piece(value, pos, span.start as int) {
                Some(t) => segs.push(SegmentView::Literal(t)),
                None => segs,
            }
        } else {
            segs
        };
        (span_effect(with_gap, value, span), span.end as int)
    }
}

/// The segments of `value` split at the spans `top`: the text between and
/// after them becomes literal segments.
pub open spec fn built_segments(value: Seq<char>, top: Seq<WordSpan>) -> Seq<SegmentView> {
    let (segs, pos) = build_state(value, top, top.len() as int);
    if pos < value.len() { segs.push(SegmentView::Literal(value.subrange(pos, value.len() as int))) } else { segs }
}

/// Inserting after a prefix whose last start is not greater than the new
/// span's, with only greater starts after it, gives the sorted insertion.
pub proof fn lemma_ins_sorted(v: Seq<WordSpan>, s: WordSpan, idx: int)
    requires
        0 <= idx <= v.len(),
        forall|j: int| idx <= j < v.len() ==> (#[trigger] v[j]).start > s.start,
        idx == 0 || v[idx - 1].start <= s.start,
    ensures
        ins_sorted(v, s) == v.subrange(0, idx).push(s) + v.subrange(idx, v.len() as int),
    decreases v.len(),
{
    if idx == v.len() {
        assert(v.subrange(0, idx) =~= v);
        assert(v.subrange(idx, v.len() as int) =~= Seq::<WordSpan>::empty());
        assert(v.push(s) + Seq::<WordSpan>::empty() =~= v.push(s));
    } else {
        let d = v.drop_last();
        assert(v.last() == v[v.len() - 1]);
        assert forall|j: int| idx <= j < d.len() implies (#[trigger] d[j]).start > s.start by {
            assert(d[j] == v[j]);
        }
        if idx > 0 {
            assert(d[idx - 1] == v[idx - 1]);
        }
        lemma_ins_sorted(d, s, idx);
        assert(d.subrange(0, idx) =~= v.subrange(0, idx));
        assert((d.subrange(0, idx).push(s) + d.subrange(idx, d.len() as int)).push(v.last())
            =~= v.subrange(0, idx).push(s) + v.subrange(idx, v.len() as int));
    }
}

/// Segments for the S-expression printer: only command/process
/// substitutions, ANSI-C quotes and locale strings are split out.
pub fn segments_from_spans(value: &[char], spans: &[WordSpan]) -> (r: Vec<WordSegment>)
    ensures
        seg_views(r@) == built_segments(value@, filtered_spans(spans@, false)),
{
    build_segments(value, spans, false)
}

/// Segments for word parts: also splits out parameter expansions, simple
/// variables, brace expansions, arithmetic and backtick substitutions.
pub fn segments_with_params(value: &[char], spans: &[WordSpan]) -> (r: Vec<WordSegment>)
    ensures
        seg_views(r@) == built_segments(value@, filtered_spans(spans@, true)),
{
    build_segments(value, spans, true)
}

/// Spans selected by the filter, ordered by start (stable), keeping only
/// those not nested inside an earlier kept span.
pub fn collect_filtered_spans(spans: &[WordSpan], decompose: bool) -> (r: Vec<WordSpan>)
    ensures
        r@ == filtered_spans(spans@, decompose),
        forall|i: int| 0 <= i < r@.len() ==> (if decompose { spec_is_decomposable(#[trigger] r@[i].kind) } else { spec_is_sexp_relevant(r@[i].kind) }),
        forall|i: int, j: int| #![trigger r@[i], r@[j]] 0 <= i < j < r@.len() ==> r@[i].end <= r@[j].start,
{
    let mut relevant: Vec<WordSpan> = Vec::new();
    let mut i: usize = 0;
    while i < spans.len()
        invariant
            i <= spans@.len(),
            relevant@ == sorted_kept(spans@, i as int, decompose),
            forall|k: int| 0 <= k < relevant@.len() ==> (if decompose { spec_is_decomposable(#[trigger] relevant@[k].kind) } else { spec_is_sexp_relevant(relevant@[k].kind) }),
        decreases spans.len() - i,
    {
        let s = spans[i];
        let keep = if decompose { is_decomposable(s.kind) } else { is_sexp_relevant(s.kind) };
        if keep {
            let ghost before = relevant@;
            insert_sorted(&mut relevant, s);
            assert forall|k: int| 0 <= k < relevant@.len() implies (if decompose { spec_is_decomposable(#[trigger] relevant@[k].kind) } else { spec_is_sexp_relevant(relevant@[k].kind) }) by {
                let x = relevant@[k];
                assert(relevant@.contains(x));
                if before.contains(x) {
                    let j = choose|j: int| 0 <= j < before.len() && before[j] == x;
                    assert(before[j] == x);
                }
            }
        }
        i = i + 1;
    }
    let mut result: Vec<WordSpan> = Vec::new();
    let mut covered_until: usize = 0;
    let mut k: usize = 0;
    while k < relevant.len()
        invariant
            k <= relevant@.len(),
            (result@, covered_until as int) == outermost(relevant@, k as int),
            forall|m: int| 0 <= m < relevant@.len() ==> (if decompose { spec_is_decomposable(#[trigger] relevant@[m].kind) } else { spec_is_sexp_relevant(relevant@[m].kind) }),
            forall|m: int| 0 <= m < result@.len() ==> (if decompose { spec_is_decomposable(#[trigger] result@[m].kind) } else { spec_is_sexp_relevant(result@[m].kind) }),
            forall|a: int, b: int| #![trigger result@[a], result@[b]] 0 <= a < b < result@.len() ==> result@[a].end <= result@[b].start,
            forall|a: int| 0 <= a < result@.len() ==> #[trigger] result@[a].end <= covered_until,
        decreases relevant.len() - k,
    {
        let s = relevant[k];
        if s.start >= covered_until {
            covered_until = if s.end > covered_until { s.end } else { covered_until };
            result.push(s);
        }
        k = k + 1;
    }
    result
}

/// Inserts `s` after every element whose start is not greater than its own.
fn insert_sorted(v: &mut Vec<WordSpan>, s: WordSpan)
    ensures
        final(v)@ == ins_sorted(old(v)@, s),
        final(v)@.len() == old(v)@.len() + 1,
        forall|x: WordSpan| final(v)@.contains(x) <==> (old(v)@.contains(x) || x == s),
{
    let mut idx = v.len();
    while idx > 0 && v[idx - 1].start > s.start
        invariant
            idx <= v@.len(),
            forall|j: int| idx <= j < v@.len() ==> (#[trigger] v@[j]).start > s.start,
        decreases idx,
    {
        idx = idx - 1;
    }
    proof {
        lemma_ins_sorted(v@, s, idx as int);
    }
    v.insert(idx, s);
    assert(v@ =~= old(v)@.subrange(0, idx as int).push(s) + old(v)@.subrange(idx as int, old(v)@.len() as int));
    assert forall|x: WordSpan| v@.contains(x) <==> (old(v)@.contains(x) || x == s) by {
        if v@.contains(x) {
            let j = choose|j: int| 0 <= j < v@.len() && v@[j] == x;
            if j < idx {
                assert(old(v)@[j] == x);
            } else if j > idx {
                assert(old(v)@[j - 1] == x);
            }
        }
        if old(v)@.contains(x) {
            let j = choose|j: int| 0 <= j < old(v)@.len() && old(v)@[j] == x;
            if j < idx {
                assert(v@[j] == x);
            } else {
                assert(v@[j + 1] == x);
            }
        }
        if x == s {
            assert(v@[idx as int] == x);
        }
    }
}

/// Splits `value` into segments: text between the selected spans becomes
/// literal segments.
pub fn build_segments(value: &[char], spans: &[WordSpan], decompose: bool) -> (r: Vec<WordSegment>)
    ensures
        seg_views(r@) == built_segments(value@, filtered_spans(spans@, decompose)),
{
    let top_level = collect_filtered_spans(spans, decompose);
    let mut segments: Vec<WordSegment> = Vec::new();
    let mut pos: usize = 0;
    let mut k: usize = 0;
    assert(seg_views(segments@) =~= Seq::<SegmentView>::empty());
    while k < top_level.len()
        invariant
            k <= top_level@.len(),
            (seg_views(segments@), pos as int) == build_state(value@, top_level@, k as int),
        decreases top_level.len() - k,
    {
        let ghost before = seg_views(segments@);
        let span = top_level[k];
        if span.start > pos {
            match slice_chars(value, pos, span.start) {
                Some(text) => {
                    segments.push(WordSegment::Literal(text));
                    assert(seg_views(segments@) =~= before.push(SegmentView::Literal(text@)));
                }
                None => {},
            }
        }
        span_to_segment(&mut segments, value, span);
        pos = span.end;
        k = k + 1;
    }
    let ghost last = seg_views(segments@);
    if pos < value.len() {
        match slice_chars(value, pos, value.len()) {
            Some(text) => {
                segments.push(WordSegment::Literal(text));
                assert(seg_views(segments@) =~= last.push(SegmentView::Literal(text@)));
            }
            None => {},
        }
    }
    segments
}

/// `a - b`, or `None` when `b > a`.
fn sub_opt(a: usize, b: usize) -> (r: Option<usize>)
    ensures
        r is Some <==> b <= a,
        r is Some ==> r->0 == a - b,
{
    if b <= a { Some(a - b) } else { None }
}

/// Converts one span into the matching segment and appends it.
fn span_to_segment(segments: &mut Vec<WordSegment>, value: &[char], span: WordSpan)
    ensures
        seg_views(final(segments)@) == span_effect(seg_views(old(segments)@), value@, span),
{
    match span.kind {
        WordSpanKind::CommandSub => {
            match (span.start.checked_add(2), sub_opt(span.end, 1)) {
                (Some(a), Some(b)) => match slice_chars(value, a, b) {
                    Some(c) => segments.push(WordSegment::CommandSubstitution(c)),
                    None => {},
                },
                _ => {},
            }
        }
        WordSpanKind::ProcessSub(dir) => {
            match (span.start.checked_add(2), sub_opt(span.end, 1)) {
                (Some(a), Some(b)) => match slice_chars(value, a, b) {
                    Some(c) => segments.push(WordSegment::ProcessSubstitution(dir, c)),
                    None => {},
                },
                _ => {},
            }
        }
        WordSpanKind::AnsiCQuote => {
            push_ansi_c_span(segments, value, span);
        }
        WordSpanKind::ArithmeticSub => {
            if span.start <= usize::MAX - 5 && span.end >= span.start + 5 {
                match slice_chars(value, span.start + 3, span.end - 2) {
                    Some(inner) => segments.push(WordSegment::ArithmeticSub(inner)),
                    None => {},
                }
            }
        }
        WordSpanKind::LocaleString => {
            if span.context == QuotingContext::DoubleQuote {
                match slice_chars(value, span.start, span.end) {
                    Some(text) => push_literal(segments, text.as_slice()),
                    None => {},
                }
            } else {
                match span.start.checked_add(1) {
                    Some(a) => match slice_chars(value, a, span.end) {
                        Some(c) => segments.push(WordSegment::LocaleString(c)),
                        None => {},
                    },
                    None => {},
                }
            }
        }
        WordSpanKind::ParamExpansion => {
            match slice_chars(value, span.start, span.end) {
                Some(text) => segments.push(WordSegment::ParamExpansion(text)),
                None => {},
            }
        }
        WordSpanKind::SimpleVar => {
            match slice_chars(value, span.start, span.end) {
                Some(text) => segments.push(WordSegment::SimpleVar(text)),
                None => {},
            }
        }
        WordSpanKind::BraceExpansion => {
            match slice_chars(value, span.start, span.end) {
                Some(text) => segments.push(WordSegment::BraceExpansion(text)),
                None => {},
            }
        }
        WordSpanKind::Backtick => {
            if span.start < usize::MAX && span.end > span.start + 1 {
                match slice_chars(value, span.start + 1, span.end - 1) {
                    Some(c) => segments.push(WordSegment::CommandSubstitution(c)),
                    None => {},
                }
            }
        }
        _ => {},
    }
}

/// `$'...'` depends on context: literal inside `"..."`, escapes processed
/// into literal text inside `${...}`, an ANSI-C segment otherwise.
fn push_ansi_c_span(segments: &mut Vec<WordSegment>, value: &[char], span: WordSpan)
    requires
        span.kind == WordSpanKind::AnsiCQuote,
    ensures
        seg_views(final(segments)@) == span_effect(seg_views(old(segments)@), value@, span),
{
    if span.context == QuotingContext::DoubleQuote {
        match slice_chars(value, span.start, span.end) {
            Some(text) => push_literal(segments, text.as_slice()),
            None => {},
        }
    } else if span.context == QuotingContext::ParamExpansion {
        match (span.start.checked_add(2), sub_opt(span.end, 1)) {
            (Some(a), Some(b)) => match slice_chars(value, a, b) {
                Some(raw) => {
                    let mut pos: usize = 0;
                    let processed = process_ansi_c_content(raw.as_slice(), &mut pos);
                    push_literal(segments, processed.as_slice());
                }
                None => {},
            },
            _ => {},
        }
    } else {
        match (span.start.checked_add(2), sub_opt(span.end, 1)) {
            (Some(a), Some(b)) => match slice_chars(value, a, b) {
                Some(c) => segments.push(WordSegment::AnsiCQuote(c)),
                None => {},
            },
            _ => {},
        }
    }
}

/// Appends text to the last literal segment, or starts a new one.
pub fn push_literal(segments: &mut Vec<WordSegment>, text: &[char])
    ensures
        seg_views(final(segments)@) == push_lit(seg_views(old(segments)@), text@),
        old(segments)@.len() > 0 && old(segments)@.last() is Literal ==> {
            &&& final(segments)@.len() == old(segments)@.len()
            &&& final(segments)@.subrange(0, old(segments)@.len() - 1) == old(segments)@.subrange(0, old(segments)@.len() - 1)
            &&& final(segments)@.last() is Literal
            &&& final(segments)@.last()->Literal_0@ == old(segments)@.last()->Literal_0@ + text@
        },
        !(old(segments)@.len() > 0 && old(segments)@.last() is Literal) ==> {
            &&& final(segments)@.len() == old(segments)@.len() + 1
            &&& final(segments)@.subrange(0, old(segments)@.len() as int) == old(segments)@
            &&& final(segments)@.last() is Literal
            &&& final(segments)@.last()->Literal_0@ == text@
        },
{
    let n = segments.len();
    if n > 0 {
        match segments.pop() {
            Some(WordSegment::Literal(mut last)) => {
                extend_chars(&mut last, text);
                segments.push(WordSegment::Literal(last));
                return;
            }
            Some(other) => {
                segments.push(other);
            }
            None => {},
        }
    }
    let mut v: Vec<char> = Vec::new();
    extend_chars(&mut v, text);
    segments.push(WordSegment::Literal(v));
}

} // verus!

verus! {

/// Appends word segments as they appear inside `(word "...")`: text
/// escaped, substitution bodies reformatted.
pub fn write_word_segments(out: &mut Vec<char>, segments: &Vec<WordSegment>)
    ensures
        crate::text::extends(old(out)@, final(out)@),
        super::segments::segments_text(seg_views(segments@), true) matches Some(t) ==> final(out)@ == old(out)@ + t,
{
    super::segments::write_segments(segments, out, super::REFORMAT_BUDGET, true);
}

} // verus!
