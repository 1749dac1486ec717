//! Decomposes word values into typed parts.
use vstd::prelude::*;
use crate::ast::{Node, NodeKind};
use crate::error::Result;
use crate::lexer::Fuel;
use crate::lexer::word_builder::WordSpan;
use crate::sexp::word::{built_segments, filtered_spans, seg_views, segments_with_params, SegmentView, WordSegment};
use self::ansi_c::ansi_c_decoded;
use self::substitution::{cmdsub_fits, procsub_fits};
use crate::text::{chars_of, string_from_chars};

pub mod ansi_c;
pub mod param_expansion;
pub mod substitution;

verus! {

/// The segments a word is decomposed at: quotes, substitutions and
/// parameter, arithmetic and brace expansions.
pub open spec fn part_segments(value: Seq<char>, spans: Seq<WordSpan>) -> Seq<SegmentView> {
    built_segments(value, filtered_spans(spans, true))
}

/// A locale string's text without its `"` delimiters.
pub open spec fn locale_inner(c: Seq<char>) -> Seq<char> {
    if c.len() >= 2 && c[0] == '"' && c.last() == '"' { c.subrange(1, c.len() - 1) } else { c }
}

/// The part node a segment becomes.
pub open spec fn part_fits(seg: SegmentView, n: Node) -> bool {
    match seg {
        SegmentView::Literal(t) => n.kind matches NodeKind::WordLiteral { value } && value@ == t,
        SegmentView::AnsiCQuote(c) =>
            n.kind matches NodeKind::AnsiCQuote { content, decoded } && content@ == c && decoded@ == ansi_c_decoded(c, 0),
        SegmentView::LocaleString(c) =>
            n.kind matches NodeKind::LocaleString { content, inner } && content@ == c && inner@ == locale_inner(c),
        SegmentView::ArithmeticSub(_) => n.kind is ArithmeticExpansion,
        SegmentView::CommandSubstitution(c) => cmdsub_fits(c, n),
        SegmentView::ProcessSubstitution(d, c) => procsub_fits(d, c, n),
        SegmentView::SimpleVar(t) =>
            n.kind matches NodeKind::ParamExpansion { param, op, arg } && op is None && arg is None
                && (t.len() >= 1 ==> param@ == t.subrange(1, t.len() as int)),
        SegmentView::ParamExpansion(_) =>
            n.kind is ParamExpansion || n.kind is ParamLength || n.kind is ParamIndirect || n.kind is WordLiteral,
        SegmentView::BraceExpansion(t) => n.kind matches NodeKind::BraceExpansion { content } && content@ == t,
    }
}

/// Each part is what its segment becomes.
pub open spec fn parts_fit(segs: Seq<SegmentView>, parts: Seq<Node>) -> bool {
    &&& parts.len() == segs.len()
    &&& forall|i: int| 0 <= i < parts.len() ==> #[trigger] part_fits(segs[i], parts[i])
}

/// A `WordLiteral` node holding `value`.
pub fn literal_fallback(value: &[char]) -> (r: Node)
    ensures
        r.kind is WordLiteral,
        r.kind->WordLiteral_value@ == value@,
{
    Node::empty(NodeKind::WordLiteral { value: string_from_chars(value) })
}

/// Decomposes a word using the lexer's spans (with a fresh step budget).
pub fn decompose_word_with_spans(value: &str, spans: &[WordSpan]) -> (r: Vec<Node>)
    ensures
        parts_fit(part_segments(value@, spans@), r@)
            || (r@.len() == 1 && r@[0].kind is WordLiteral && r@[0].kind->WordLiteral_value@ == value@),
{
    let cs = chars_of(value);
    let mut fuel = Fuel::fresh();
    match decompose_with_fuel(cs.as_slice(), spans, &mut fuel) {
        Ok(parts) => parts,
        Err(_) => {
            let v = vec![literal_fallback(cs.as_slice())];
            assert(v@[0].kind is WordLiteral);
            v
        }
    }
}

/// Decomposes a word using the lexer's spans, charging `fuel`.
#[verifier::spinoff_prover]
pub fn decompose_with_fuel(value: &[char], spans: &[WordSpan], fuel: &mut Fuel) -> (r: Result<Vec<Node>>)
    ensures
        final(fuel).budget <= old(fuel).budget,
        final(fuel).nest == old(fuel).nest,
        r is Ok ==> parts_fit(part_segments(value@, spans@), r->Ok_0@),
        r is Err ==> final(fuel).budget == 0,
        spans@.len() == 0 && value@.len() > 0 && old(fuel).budget >= 2 ==> (r is Ok && r->Ok_0@.len() == 1
            && r->Ok_0@[0].kind is WordLiteral && r->Ok_0@[0].kind->WordLiteral_value@ == value@),
        spans@.len() == 0 && old(fuel).budget >= 2 ==> r is Ok && final(fuel).budget + 2 >= old(fuel).budget,
    decreases old(fuel).budget,
{
    fuel.tick(0, 1)?;
    let segments = segments_with_params(value, spans);
    let ghost segs = seg_views(segments@);
    let ghost plain = spans@.len() == 0 && value@.len() > 0 && old(fuel).budget >= 2;
    let ghost nospan = spans@.len() == 0 && old(fuel).budget >= 2;
    proof {
        if nospan && value@.len() == 0 {
            let e = Seq::<WordSpan>::empty();
            assert(spans@ =~= e);
            assert(crate::sexp::word::sorted_kept(e, 0, true) =~= e);
            assert(crate::sexp::word::filtered_spans(e, true) =~= e);
            assert(segs.len() == 0);
        }
        if plain {
            let e = Seq::<WordSpan>::empty();
            assert(spans@ =~= e);
            assert(crate::sexp::word::sorted_kept(e, 0, true) =~= e);
            assert(crate::sexp::word::filtered_spans(e, true) =~= e);
            assert(value@.subrange(0, value@.len() as int) =~= value@);
            assert(segs =~= seq![SegmentView::Literal(value@)]);
        }
    }
    let mut parts: Vec<Node> = Vec::new();
    let mut k: usize = 0;
    while k < segments.len()
        invariant
            fuel.budget < old(fuel).budget,
            fuel.nest == old(fuel).nest,
            k <= segments@.len(),
            segs == seg_views(segments@),
            parts@.len() == k,
            forall|i: int| 0 <= i < k ==> #[trigger] part_fits(segs[i], parts@[i]),
            plain == (spans@.len() == 0 && value@.len() > 0 && old(fuel).budget >= 2),
            plain ==> segs == seq![SegmentView::Literal(value@)],
            plain && k == 0 ==> fuel.budget + 1 == old(fuel).budget,
            plain && k == 1 ==> fuel.budget + 2 >= old(fuel).budget,
            nospan == (spans@.len() == 0 && old(fuel).budget >= 2),
            nospan && value@.len() == 0 ==> segs.len() == 0 && fuel.budget + 1 == old(fuel).budget,
            plain && k == 1 ==> parts@[0].kind is WordLiteral && parts@[0].kind->WordLiteral_value@ == value@,
        decreases segments.len() - k,
    {
        proof {
            if plain {
                assert(segs.len() == segments@.len());
                assert(segs[k as int] == segments@[k as int]@);
                assert(segments@[k as int]@ == SegmentView::Literal(value@));
            }
        }
        let node = segment_to_node(&segments[k], fuel)?;
        parts.push(node);
        k = k + 1;
    }
    proof {
        if plain {
            assert(segs.len() == 1);
            assert(parts@.len() == 1);
        }
        if nospan && value@.len() == 0 {
            assert(parts@.len() == 0);
        }
    }
    Ok(parts)
}

/// A single `WordLiteral` for synthetic values (no lexer token).
pub fn decompose_word_literal(value: &[char]) -> (r: Vec<Node>)
    ensures
        r@.len() == 1,
        r@[0].kind is WordLiteral,
        r@[0].kind->WordLiteral_value@ == value@,
{
    vec![literal_fallback(value)]
}

/// Maps a segment to its part node.
pub fn segment_to_node(seg: &WordSegment, fuel: &mut Fuel) -> (r: Result<Node>)
    ensures
        final(fuel).budget <= old(fuel).budget,
        final(fuel).nest == old(fuel).nest,
        r is Ok ==> part_fits(seg@, r->Ok_0),
        r is Err ==> final(fuel).budget == 0,
        old(fuel).budget > 0 && !(seg is CommandSubstitution || seg is ProcessSubstitution) ==> r is Ok,
        old(fuel).budget > 0 && seg is Literal ==> r is Ok && r->Ok_0.kind is WordLiteral
            && r->Ok_0.kind->WordLiteral_value@ == seg->Literal_0@ && final(fuel).budget + 1 == old(fuel).budget,
    decreases old(fuel).budget,
{
    fuel.tick(0, 1)?;
    match seg {
        WordSegment::Literal(text) => Ok(literal_fallback(text.as_slice())),
        WordSegment::AnsiCQuote(content) => {
            let decoded = ansi_c::ansi_c_decode(content.as_slice());
            Ok(Node::empty(NodeKind::AnsiCQuote {
                content: string_from_chars(content.as_slice()),
                decoded: string_from_chars(decoded.as_slice()),
            }))
        }
        WordSegment::LocaleString(content) => {
            let inner = ansi_c::strip_locale_quotes(content.as_slice());
            Ok(Node::empty(NodeKind::LocaleString {
                content: string_from_chars(content.as_slice()),
                inner: string_from_chars(inner.as_slice()),
            }))
        }
        WordSegment::ArithmeticSub(inner) => Ok(substitution::arithmetic_sub_to_node(inner.as_slice())),
        WordSegment::CommandSubstitution(content) => substitution::cmdsub_to_node(content.as_slice(), fuel),
        WordSegment::ProcessSubstitution(direction, content) => {
            substitution::procsub_to_node(*direction, content.as_slice(), fuel)
        }
        WordSegment::SimpleVar(text) => Ok(param_expansion::parse_simple_var(text.as_slice())),
        WordSegment::ParamExpansion(text) => Ok(param_expansion::parse_braced_param(text.as_slice())),
        WordSegment::BraceExpansion(text) => {
            Ok(Node::empty(NodeKind::BraceExpansion { content: string_from_chars(text.as_slice()) }))
        }
    }
}

} // verus!
