//! Writing the segments of a word: escaped inside `(word "...")`, or as
//! they stand for redirect targets, condition terms and reformatted source.
use vstd::prelude::*;
use crate::ast::Node;
use crate::format::reformat_chars;
use crate::text::{extend_chars, extends, push_str};
use super::word::{seg_views, SegmentView, WordSegment};
use super::ansi_c::ansi_processed;
use super::model::cat;
use super::{ansi_c_processed, escaped, normalize_cmdsub_content, write_escaped_word};

verus! {

/// `text`, escaped when `escape` is set.
pub open spec fn put_text(t: Seq<char>, escape: bool) -> Seq<char> {
    if escape { escaped(t) } else { t }
}

/// How one segment is written; `None` for a command or process
/// substitution, whose body is reformatted.
pub open spec fn segment_text(s: SegmentView, escape: bool) -> Option<Seq<char>> {
    match s {
        SegmentView::Literal(t) => Some(put_text(t, escape)),
        SegmentView::ParamExpansion(t) => Some(put_text(t, escape)),
        SegmentView::SimpleVar(t) => Some(put_text(t, escape)),
        SegmentView::BraceExpansion(t) => Some(put_text(t, escape)),
        SegmentView::LocaleString(t) => Some(put_text(t, escape)),
        SegmentView::AnsiCQuote(raw) => Some(seq!['\''] + put_text(ansi_processed(raw, 0).0, escape) + seq!['\'']),
        SegmentView::ArithmeticSub(inner) => Some("$(("@ + put_text(inner, escape) + "))"@),
        SegmentView::CommandSubstitution(_) => None,
        SegmentView::ProcessSubstitution(_, _) => None,
    }
}

/// `p` is how the segment `s` may be written: its text where that is
/// known; for a command substitution `$(`, a body and `)`; for a process
/// substitution its own direction, `(`, a body and `)`.
pub open spec fn segment_fits(s: SegmentView, p: Seq<char>, escape: bool) -> bool {
    match s {
        SegmentView::CommandSubstitution(_) => p.len() >= 3 && p[0] == '$' && p[1] == '(' && p.last() == ')',
        SegmentView::ProcessSubstitution(d, _) => p.len() >= 3 && p[0] == d && p[1] == '(' && p.last() == ')',
        _ => segment_text(s, escape) == Some(p),
    }
}

/// The pieces one after the other.
pub open spec fn concat_all(ps: Seq<Seq<char>>) -> Seq<char>
    decreases ps.len(),
{
    if ps.len() == 0 { Seq::empty() } else { concat_all(ps.drop_last()) + ps.last() }
}

/// A written process substitution starts with its direction (`<` or `>`)
/// and `(`, and ends with `)`: `>(...)` is never written as `<(...)`.
pub proof fn lemma_process_substitution_written(d: char, c: Seq<char>, p: Seq<char>, escape: bool)
    requires
        segment_fits(SegmentView::ProcessSubstitution(d, c), p, escape),
    ensures
        p.len() >= 3,
        p[0] == d,
        p[1] == '(',
        p[p.len() - 1] == ')',
{
}

/// How a list of segments is written, one after the other.
pub open spec fn segments_text(v: Seq<SegmentView>, escape: bool) -> Option<Seq<char>>
    decreases v.len(),
{
    if v.len() == 0 {
        Some(Seq::empty())
    } else {
        cat(segments_text(v.drop_last(), escape), segment_text(v.last(), escape))
    }
}

/// Appends `text`, escaped when `escape` is set.
fn put(out: &mut Vec<char>, text: &[char], escape: bool)
    ensures
        escape ==> final(out)@ == old(out)@ + escaped(text@),
        !escape ==> final(out)@ == old(out)@ + text@,
{
    if escape {
        write_escaped_word(out, text);
    } else {
        extend_chars(out, text);
    }
}

/// The body of a command or process substitution as printed: the
/// reformatted source when it parses (and `b` allows one more
/// reformatting), else the normalized text.
pub fn substitution_body(content: &[char], b: usize) -> (r: Vec<char>)
    ensures
        (content@.len() == 0 || crate::text::utf8_len(content@) > crate::format::MAX_REFORMAT_LEN || b == 0
            || crate::format::plain_words(content@)) ==> r@ == crate::sexp::normalized_cmdsub(content@),
    decreases b, 0int, Node::empty_spec(), 1int,
{
    match reformat_chars(content, b) {
        Some(text) => text,
        None => normalize_cmdsub_content(content),
    }
}

/// Appends the segments of a word. With `escape`, text is escaped for an
/// S-expression string and a substitution body that starts with `(` gets
/// a space before it; without, text is written as it stands (redirect
/// targets, condition terms, reformatted source).
#[verifier::rlimit(40)]
pub fn write_segments(segs: &Vec<WordSegment>, out: &mut Vec<char>, b: usize, escape: bool)
    ensures
        extends(old(out)@, final(out)@),
        segments_text(seg_views(segs@), escape) matches Some(t) ==> final(out)@ == old(out)@ + t,
        exists|ps: Seq<Seq<char>>| ps.len() == segs@.len() && final(out)@ == old(out)@ + #[trigger] concat_all(ps)
            && forall|i: int| 0 <= i < ps.len() ==> segment_fits(segs@[i]@, #[trigger] ps[i], escape),
    decreases b, 0int, Node::empty_spec(), 2int,
{
    let ghost v = seg_views(segs@);
    let ghost mut ps: Seq<Seq<char>> = Seq::empty();
    let mut k: usize = 0;
    while k < segs.len()
        invariant
            k <= segs@.len(),
            v == seg_views(segs@),
            extends(old(out)@, out@),
            segments_text(v.subrange(0, k as int), escape) matches Some(t) ==> out@ == old(out)@ + t,
            ps.len() == k,
            out@ == old(out)@ + concat_all(ps),
            forall|i: int| 0 <= i < ps.len() ==> segment_fits(segs@[i]@, #[trigger] ps[i], escape),
        decreases segs.len() - k,
    {
        let ghost before = out@;
        let ghost sv = segs@[k as int]@;
        match &segs[k] {
            WordSegment::Literal(text) | WordSegment::ParamExpansion(text)
            | WordSegment::SimpleVar(text) | WordSegment::BraceExpansion(text)
            | WordSegment::LocaleString(text) => {
                put(out, text.as_slice(), escape);
                assert(out@.subrange(before.len() as int, out@.len() as int) =~= put_text(text@, escape));
                assert(segment_fits(sv, out@.subrange(before.len() as int, out@.len() as int), escape));
            }
            WordSegment::AnsiCQuote(raw) => {
                let processed = ansi_c_processed(raw.as_slice());
                out.push('\'');
                put(out, processed.as_slice(), escape);
                out.push('\'');
                assert(out@.subrange(before.len() as int, out@.len() as int)
                    =~= seq!['\''] + put_text(processed@, escape) + seq!['\'']);
            }
            WordSegment::ArithmeticSub(inner) => {
                push_str(out, "$((");
                put(out, inner.as_slice(), escape);
                push_str(out, "))");
                assert(out@.subrange(before.len() as int, out@.len() as int)
                    =~= "$(("@ + put_text(inner@, escape) + "))"@);
            }
            WordSegment::CommandSubstitution(content) => {
                push_str(out, "$(");
                proof {
                    reveal_strlit("$(");
                }
                let ghost mid = out@;
                let body = substitution_body(content.as_slice(), b);
                if escape && body.len() > 0 && body[0] == '(' {
                    out.push(' ');
                }
                put(out, body.as_slice(), escape);
                assert(extends(mid, out@));
                out.push(')');
                assert(out@[before.len() as int] == mid[before.len() as int]);
                assert(out@[before.len() as int + 1] == mid[before.len() as int + 1]);
                assert(segment_fits(sv, out@.subrange(before.len() as int, out@.len() as int), escape));
            }
            WordSegment::ProcessSubstitution(direction, content) => {
                out.push(*direction);
                out.push('(');
                let ghost mid = out@;
                let n = content.len();
                let a = crate::text::skip_ws_forward(content.as_slice(), 0, n);
                let e = crate::text::skip_ws_backward(content.as_slice(), a, n);
                if escape && e > a && content[a] == '(' {
                    let mut i = a;
                    while i < e
                        invariant
                            a <= i <= e <= content@.len(),
                            extends(before, out@),
                            extends(old(out)@, before),
                            extends(mid, out@),
                        decreases e - i,
                    {
                        super::write_escaped_char(out, content[i]);
                        i = i + 1;
                    }
                } else {
                    let body = substitution_body(content.as_slice(), b);
                    put(out, body.as_slice(), escape);
                }
                assert(extends(mid, out@));
                out.push(')');
                assert(out@[before.len() as int] == mid[before.len() as int]);
                assert(out@[before.len() as int + 1] == mid[before.len() as int + 1]);
                assert(segment_fits(sv, out@.subrange(before.len() as int, out@.len() as int), escape));
            }
        }
        assert(extends(old(out)@, out@));
        proof {
            let cur = v.subrange(0, k + 1);
            assert(cur.drop_last() =~= v.subrange(0, k as int));
            assert(cur.last() == segs@[k as int]@);
            if segments_text(cur, escape) is Some {
                assert(out@ =~= old(out)@ + segments_text(cur, escape)->0);
            }
            let piece = out@.subrange(before.len() as int, out@.len() as int);
            assert(before + piece =~= out@);
            assert(segment_fits(segs@[k as int]@, piece, escape));
            let ps2 = ps.push(piece);
            assert(ps2.drop_last() =~= ps);
            assert(out@ =~= old(out)@ + concat_all(ps2));
            ps = ps2;
        }
        k = k + 1;
    }
    assert(v.subrange(0, v.len() as int) =~= v);
    assert(out@ == old(out)@ + concat_all(ps));
}

} // verus!
