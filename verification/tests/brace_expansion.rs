use rable::lexer::brace_expansion::{find_brace_close, span_end_at};
use rable::lexer::word_builder::{WordSpan, WordSpanKind};


/// Helper: lex a single word and check for `BraceExpansion` spans.
#[allow(clippy::unwrap_used)]
fn brace_spans(source: &str) -> Vec<(usize, usize)> {
    let mut lexer = rable::lexer::Lexer::new(source, false);
    let tok = lexer.next_token().unwrap();
    tok.spans
        .iter()
        .filter(|s| s.kind == WordSpanKind::BraceExpansion)
        .map(|s| (s.start, s.end))
        .collect()
}

#[test]
fn comma_form() {
    let spans = brace_spans("{a,b,c}");
    assert_eq!(spans, vec![(0, 7)]);
}

#[test]
fn range_form() {
    let spans = brace_spans("{1..10}");
    assert_eq!(spans, vec![(0, 7)]);
}

#[test]
fn mid_word() {
    let spans = brace_spans("file{1,2}.txt");
    assert_eq!(spans, vec![(4, 9)]);
}

#[test]
fn nested_braces() {
    let spans = brace_spans("{a,{b,c}}");
    assert_eq!(spans, vec![(0, 9)]);
}

#[test]
fn empty_braces_not_expansion() {
    let spans = brace_spans("{}");
    assert!(spans.is_empty());
}

#[test]
fn single_element_not_expansion() {
    let spans = brace_spans("{a}");
    assert!(spans.is_empty());
}

#[test]
fn trailing_comma() {
    let spans = brace_spans("{a,}");
    assert_eq!(spans, vec![(0, 4)]);
}

#[test]
fn leading_comma() {
    let spans = brace_spans("{,a}");
    assert_eq!(spans, vec![(0, 4)]);
}

#[test]
fn param_expansion_not_brace() {
    // ${foo} should NOT produce a BraceExpansion span
    let spans = brace_spans("${foo}");
    assert!(spans.is_empty());
}

#[test]
fn adjacent_brace_expansions() {
    let spans = brace_spans("{a,b}{c,d}");
    assert_eq!(spans, vec![(0, 5), (5, 10)]);
}

#[test]
fn alpha_range() {
    let spans = brace_spans("{a..z}");
    assert_eq!(spans, vec![(0, 6)]);
}

#[test]
fn range_with_step() {
    let spans = brace_spans("{1..10..2}");
    assert_eq!(spans, vec![(0, 10)]);
}
