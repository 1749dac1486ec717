use rable::ast::{ListOperator, NodeKind, Span};
use rable::context::CaseTracker;
use rable::format::{reformat_bash, Formatter};
use rable::lexer::word_builder::{QuotingContext, WordBuilder};
use rable::lexer::Lexer;
use rable::parser::arithmetic::parse_arith_expression;
use rable::parser::word_parts::decompose_word_with_spans;
use rable::sexp::normalize_cmdsub_content;
use rable::token::{Token, TokenType};
use rable::{parse, RableError};

fn sexp(source: &str) -> String {
    let nodes = parse(source, false).unwrap();
    assert_eq!(nodes.len(), 1);
    nodes[0].to_string()
}

fn tokens(source: &str) -> Vec<(TokenType, String)> {
    let mut lexer = Lexer::new(source, false);
    let mut out = Vec::new();
    loop {
        let tok = lexer.next_token().unwrap();
        if tok.kind == TokenType::Eof {
            break;
        }
        out.push((tok.kind, tok.value));
    }
    out
}

#[test]
fn readme_pipeline_example() {
    let nodes = parse("echo hello | grep h", false).unwrap();
    assert_eq!(nodes.len(), 1);
    let s = nodes[0].to_string();
    assert!(s.contains("pipe"));
    assert_eq!(
        s,
        r#"(pipe (command (word "echo") (word "hello")) (command (word "grep") (word "h")))"#
    );
}

#[test]
fn readme_simple_command_example() {
    let nodes = parse("echo hello", false).unwrap();
    assert_eq!(nodes[0].to_string(), "(command (word \"echo\") (word \"hello\"))");
}

#[test]
fn readme_two_lines_two_nodes() {
    let nodes = parse("echo a\necho b", false).unwrap();
    assert_eq!(nodes.len(), 2);
}

#[test]
fn readme_extglob_parses() {
    let nodes = parse("echo @(foo|bar)", true).unwrap();
    assert_eq!(nodes.len(), 1);
    assert_eq!(nodes[0].to_string(), "(command (word \"echo\") (word \"@(foo|bar)\"))");
}

#[test]
fn readme_command_words() {
    let nodes = parse("echo hello world", false).unwrap();
    match &nodes[0].kind {
        NodeKind::Command { words, redirects, .. } => {
            assert_eq!(words.len(), 3);
            assert!(redirects.is_empty());
        }
        _ => panic!("expected Command"),
    }
}

#[test]
fn readme_python_if_example() {
    assert_eq!(
        sexp("if [ -f file ]; then cat file; fi"),
        r#"(if (command (word "[") (word "-f") (word "file") (word "]")) (command (word "cat") (word "file")))"#
    );
}

#[test]
fn readme_error_has_line() {
    match parse("if", false) {
        Ok(_) => panic!("expected an error"),
        Err(e) => {
            assert_eq!(e.line(), 1);
            assert!(matches!(e, RableError::Parse { .. }));
        }
    }
}

#[test]
fn unterminated_single_quote_is_matched_pair_error() {
    let e = parse("echo 'abc", false).unwrap_err();
    assert!(matches!(e, RableError::MatchedPair { .. }));
    assert_eq!(e.message(), "unterminated single quote");
}

#[test]
fn unterminated_command_substitution_is_matched_pair_error() {
    let e = parse("echo $(ls", false).unwrap_err();
    assert!(matches!(e, RableError::MatchedPair { .. }));
}

#[test]
fn unterminated_parameter_expansion_is_matched_pair_error() {
    let e = parse("echo ${x", false).unwrap_err();
    assert!(matches!(e, RableError::MatchedPair { .. }));
}

#[test]
fn error_constructors_keep_their_fields() {
    let e = RableError::parse("boom", 7, 3);
    assert_eq!(e.message(), "boom");
    assert_eq!(e.pos(), 7);
    assert_eq!(e.line(), 3);
    let m = RableError::matched_pair("open", 1, 2);
    assert!(matches!(m, RableError::MatchedPair { .. }));
    assert_eq!((m.pos(), m.line()), (1, 2));
}

#[test]
fn peek_then_next_returns_the_same_token() {
    let mut lexer = Lexer::new("echo hi", false);
    let peeked = lexer.peek_token().unwrap().clone();
    let again = lexer.peek_token().unwrap().clone();
    let next = lexer.next_token().unwrap();
    assert_eq!(peeked.kind, next.kind);
    assert_eq!(peeked.value, next.value);
    assert_eq!(peeked.pos, next.pos);
    assert_eq!(again.value, next.value);
    let after = lexer.next_token().unwrap();
    assert_eq!(after.value, "hi");
}

#[test]
fn operators_take_the_longest_spelling() {
    let toks = tokens("|& ;;& &>> >&- <&- >| <> <<< ;& <<- >> &&");
    let expected = vec![
        (TokenType::PipeBoth, "|&"),
        (TokenType::SemiSemiAnd, ";;&"),
        (TokenType::AndDoubleGreater, "&>>"),
        (TokenType::GreaterAnd, ">&-"),
        (TokenType::LessAnd, "<&-"),
        (TokenType::GreaterPipe, ">|"),
        (TokenType::LessGreater, "<>"),
        (TokenType::TripleLess, "<<<"),
        (TokenType::SemiAnd, ";&"),
        (TokenType::DoubleLessDash, "<<-"),
        (TokenType::DoubleGreater, ">>"),
        (TokenType::And, "&&"),
    ];
    assert_eq!(toks.len(), expected.len());
    for (t, (k, v)) in toks.iter().zip(expected.iter()) {
        assert_eq!(t.0, *k);
        assert_eq!(t.1, *v);
    }
}

#[test]
fn reserved_words_map_one_to_one() {
    assert_eq!(TokenType::reserved_word("if"), Some(TokenType::If));
    assert_eq!(TokenType::reserved_word("fi"), Some(TokenType::Fi));
    assert_eq!(TokenType::reserved_word("[["), Some(TokenType::DoubleLeftBracket));
    assert_eq!(TokenType::reserved_word("]]"), Some(TokenType::DoubleRightBracket));
    assert_eq!(TokenType::reserved_word("{"), Some(TokenType::LeftBrace));
    assert_eq!(TokenType::reserved_word("coproc"), Some(TokenType::Coproc));
    assert_eq!(TokenType::reserved_word("IF"), None);
    assert_eq!(TokenType::reserved_word("iff"), None);
    assert!(TokenType::If.starts_command());
    assert!(!TokenType::Fi.starts_command());
}

#[test]
fn adjacent_tokens() {
    let a = Token::new(TokenType::Word, "ab", 0, 1);
    let b = Token::new(TokenType::Word, "c", 2, 1);
    let c = Token::new(TokenType::Word, "c", 3, 1);
    assert!(a.adjacent_to(&b));
    assert!(!a.adjacent_to(&c));
}

#[test]
fn quotes_and_backslashes_are_escaped_in_words() {
    assert_eq!(
        sexp(r#"echo "a\"b""#),
        r#"(command (word "echo") (word "\"a\\\"b\""))"#
    );
}

#[test]
fn tabs_are_escaped_in_words() {
    assert_eq!(sexp("echo 'a\tb'"), "(command (word \"echo\") (word \"'a\\tb'\"))");
}

#[test]
fn arithmetic_trees_print_as_s_expressions() {
    assert_eq!(parse_arith_expression("1 + 2 * 3").unwrap().to_string(), "(+ 1 (* 2 3))");
    assert_eq!(parse_arith_expression("a = b = 1").unwrap().to_string(), "(= a (= b 1))");
    assert_eq!(parse_arith_expression("x++").unwrap().to_string(), "(post++ x)");
    assert_eq!(parse_arith_expression("--x").unwrap().to_string(), "(pre-- x)");
    assert_eq!(parse_arith_expression("a ? b : c").unwrap().to_string(), "(? a b c)");
    assert_eq!(parse_arith_expression("arr[i + 1]").unwrap().to_string(), "(subscript arr (+ i 1))");
    assert_eq!(parse_arith_expression("1, 2").unwrap().to_string(), "(, 1 2)");
    assert_eq!(parse_arith_expression("").unwrap().to_string(), "(empty)");
}

#[test]
fn arithmetic_errors() {
    assert!(parse_arith_expression("1 +").is_err());
    assert!(parse_arith_expression("(1").is_err());
    assert!(parse_arith_expression("1 2").is_err());
}

#[test]
fn ansi_c_escapes_decode_in_word_parts() {
    let mut lexer = Lexer::new("$'\\x41\\n\\101\\q'", false);
    let tok = lexer.next_token().unwrap();
    let parts = decompose_word_with_spans(&tok.value, &tok.spans);
    assert_eq!(parts.len(), 1);
    match &parts[0].kind {
        NodeKind::AnsiCQuote { content, decoded } => {
            assert_eq!(content, "\\x41\\n\\101\\q");
            assert_eq!(decoded, "A\nA\\q");
        }
        _ => panic!("expected AnsiCQuote"),
    }
}

#[test]
fn ansi_c_unicode_and_control_escapes_decode() {
    let mut lexer = Lexer::new("$'\\u00e9\\cA'", false);
    let tok = lexer.next_token().unwrap();
    let parts = decompose_word_with_spans(&tok.value, &tok.spans);
    match &parts[0].kind {
        NodeKind::AnsiCQuote { decoded, .. } => assert_eq!(decoded, "\u{e9}\u{1}"),
        _ => panic!("expected AnsiCQuote"),
    }
}

#[test]
fn ansi_c_control_bytes_get_bash_escape_byte_in_output() {
    assert_eq!(sexp("echo $'a\\x01b'"), "(command (word \"echo\") (word \"'a\u{1}\u{1}b'\"))");
}

#[test]
fn ansi_c_nul_escape_ends_the_string() {
    assert_eq!(sexp("echo $'ab\\x00cd'"), "(command (word \"echo\") (word \"'ab'\"))");
}

#[test]
fn command_substitution_body_is_reformatted() {
    assert_eq!(sexp("echo $(a|b)"), "(command (word \"echo\") (word \"$(a | b)\"))");
}

#[test]
fn reformatting_nests_two_levels_deep() {
    assert_eq!(
        sexp("echo $(echo $(a|b))"),
        "(command (word \"echo\") (word \"$(echo $(a | b))\"))"
    );
    assert_eq!(
        sexp("echo $(echo $(echo $(a|b)))"),
        "(command (word \"echo\") (word \"$(echo $(echo $(a|b)))\"))"
    );
}

#[test]
fn heredoc_body_is_filled_in() {
    assert_eq!(
        sexp("cat <<EOF\nhello\nEOF\n"),
        "(command (word \"cat\") (redirect \"<<\" \"hello\n\"))"
    );
}

#[test]
fn reformat_leaves_plain_words_alone() {
    assert_eq!(reformat_bash("echo hello"), None);
    assert_eq!(reformat_bash("ls -l /tmp"), None);
    assert_eq!(reformat_bash("caf\u{e9} cr\u{e8}me"), None);
    assert_eq!(reformat_bash(""), None);
}

#[test]
fn reformat_lays_out_pipelines_and_lists() {
    assert_eq!(reformat_bash("a|b"), Some("a | b".to_string()));
    assert_eq!(reformat_bash("a;b"), Some("a; b".to_string()));
    assert_eq!(reformat_bash("a&&b"), Some("a && b".to_string()));
}

#[test]
fn reformat_lays_out_if() {
    assert_eq!(reformat_bash("if a; then b; fi"), Some("if a; then\n    b;\nfi".to_string()));
}

#[test]
fn reformat_writes_descriptors_other_than_the_default() {
    assert_eq!(reformat_bash("cmd 3>out"), Some("cmd 3> out".to_string()));
    assert_eq!(reformat_bash("cmd 1>out"), Some("cmd > out".to_string()));
    assert_eq!(reformat_bash("cmd 2>&1"), Some("cmd 2>&1".to_string()));
}

#[test]
fn reformat_refuses_long_bodies() {
    let long = format!("a;{}", "b".repeat(1000));
    assert_eq!(reformat_bash(&long), None);
}

#[test]
fn normalize_trims_strips_semicolon_and_spaces_file_read() {
    let input: Vec<char> = " <file ;  ".chars().collect();
    let out: String = normalize_cmdsub_content(&input).into_iter().collect();
    assert_eq!(out, "< file");
    let input: Vec<char> = "  ls -l  ".chars().collect();
    let out: String = normalize_cmdsub_content(&input).into_iter().collect();
    assert_eq!(out, "ls -l");
    let input: Vec<char> = "<<x".chars().collect();
    let out: String = normalize_cmdsub_content(&input).into_iter().collect();
    assert_eq!(out, "<<x");
}

#[test]
fn finish_keeps_a_final_newline() {
    let mut f = Formatter::new();
    f.write_str("x\n \t ");
    assert_eq!(f.finish(), "x\n");
    let mut f = Formatter::new();
    f.write_str("a b\t");
    assert_eq!(f.finish(), "a b");
}

#[test]
fn with_indent_puts_the_indentation_back() {
    let f = Formatter::new();
    let mut f = f.with_indent(2, |mut g| {
        g.indent_here();
        g.write_str("a");
        g
    });
    f.indent_here();
    f.write_str("b");
    assert_eq!(f.finish(), "  ab");
}

#[test]
fn case_tracker_follows_patterns() {
    let mut t = CaseTracker::new();
    assert!(!t.is_pattern_close());
    let w: Vec<char> = "case".chars().collect();
    t.check_word(&w);
    assert_eq!(t.depth, 1);
    let w: Vec<char> = "in".chars().collect();
    t.check_word(&w);
    assert!(t.is_pattern_close());
    t.close_pattern();
    assert!(!t.is_pattern_close());
    t.resume_pattern();
    assert!(t.is_pattern_open());
    let w: Vec<char> = "esac".chars().collect();
    t.check_word(&w);
    assert_eq!(t.depth, 0);
    assert!(!t.is_pattern_close());
}

#[test]
fn word_builder_context_round_trip() {
    let mut wb = WordBuilder::new();
    assert_eq!(wb.current_context(), QuotingContext::Plain);
    wb.enter_context(QuotingContext::DoubleQuote);
    assert_eq!(wb.current_context(), QuotingContext::DoubleQuote);
    wb.leave_context();
    assert_eq!(wb.current_context(), QuotingContext::Plain);
    wb.leave_context();
    assert_eq!(wb.current_context(), QuotingContext::Plain);
}

#[test]
fn source_text_and_spans() {
    let src = "echo hi";
    let nodes = parse(src, false).unwrap();
    assert_eq!(nodes[0].source_text(src), "echo hi");
    assert!(Span::new(3, 3).is_empty());
    assert!(!Span::new(3, 4).is_empty());
    assert!(Span::empty().is_empty());
}

#[test]
fn empty_input_parses_to_nothing() {
    assert_eq!(parse("", false).unwrap().len(), 0);
    assert_eq!(parse("\n\n", false).unwrap().len(), 0);
}

#[test]
fn reformat_lays_out_loops() {
    assert_eq!(reformat_bash("while a; do b; done"), Some("while a; do\n    b;\ndone".to_string()));
    assert_eq!(reformat_bash("until a; do b; done"), Some("until a; do\n    b;\ndone".to_string()));
    assert_eq!(reformat_bash("for x in 1 2; do b; done"), Some("for x in 1 2;\ndo\n    b;\ndone".to_string()));
    assert_eq!(
        reformat_bash("for ((i=0; i<3; i++)); do b; done"),
        Some("for ((i=0; i<3; i++))\ndo\n    b;\ndone".to_string())
    );
}

#[test]
fn reformat_lays_out_case_and_function() {
    assert_eq!(
        reformat_bash("case x in a) b;; esac"),
        Some("case x in a)\n        b\n    ;;\nesac".to_string())
    );
    assert_eq!(reformat_bash("f() { a; b; }"), Some("function f () \n{ \n    a;\n    b\n}".to_string()));
}

#[test]
fn reformat_lays_out_groups() {
    assert_eq!(reformat_bash("( a )"), Some("( a )".to_string()));
    assert_eq!(reformat_bash("{ a; }"), Some("{ a; }".to_string()));
    assert_eq!(reformat_bash("! a"), Some("! a".to_string()));
    assert_eq!(reformat_bash("[[ -f x && a == b ]]"), Some("[[ -f x && a == b ]]".to_string()));
}

#[test]
fn word_without_spans_is_written_as_it_stands() {
    let text = rable::format::nodes::process_word_value(&"a\"b".to_string(), &Vec::new(), 2);
    assert_eq!(text, vec!['a', '"', 'b']);
}

#[test]
fn word_parts_follow_their_segments() {
    let parts = decompose_word_with_spans("$'a\\tb'x{p,q}", &[]);
    assert_eq!(parts.len(), 1);
    assert!(matches!(&parts[0].kind, NodeKind::WordLiteral { value } if value == "$'a\\tb'x{p,q}"));
    let nodes = parse("echo $'a\\tb'x{p,q}", false).unwrap();
    if let NodeKind::Command { words, .. } = &nodes[0].kind {
        if let NodeKind::Word { parts, .. } = &words[1].kind {
            assert_eq!(parts.len(), 3);
            assert!(matches!(&parts[0].kind, NodeKind::AnsiCQuote { decoded, .. } if decoded == "a\tb"));
            assert!(matches!(&parts[1].kind, NodeKind::WordLiteral { value } if value == "x"));
            assert!(matches!(&parts[2].kind, NodeKind::BraceExpansion { content } if content == "{p,q}"));
        } else {
            panic!("expected a word");
        }
    } else {
        panic!("expected a command");
    }
}

#[test]
fn sexp_of_ansi_c_word_uses_its_segments() {
    assert_eq!(sexp("echo $'a'"), "(command (word \"echo\") (word \"'a'\"))");
}

#[test]
fn error_text_names_kind_line_and_position() {
    let e = RableError::parse("bad token", 17, 3);
    assert_eq!(e.to_string(), "parse error at line 3, position 17: bad token");
    let m = RableError::matched_pair("unclosed quote", 0, 10);
    assert_eq!(m.to_string(), "unmatched delimiter at line 10, position 0: unclosed quote");
}

#[test]
fn error_text_of_a_failed_parse() {
    let e = parse("echo 'abc", false).unwrap_err();
    assert!(e.is_matched_pair());
    assert!(e.to_string().starts_with("unmatched delimiter at line 1, position "));
}

#[test]
fn arithmetic_number_literal_parses() {
    let n = parse_arith_expression("  4096 ").unwrap();
    match n.kind {
        NodeKind::ArithNumber { value } => assert_eq!(value, "4096"),
        other => panic!("unexpected {other:?}"),
    }
}

#[test]
fn arithmetic_subtraction_is_left_associative() {
    let n = parse_arith_expression("a - b - c").unwrap();
    match n.kind {
        NodeKind::ArithBinaryOp { op, left, right } => {
            assert_eq!(op, "-");
            assert!(matches!(right.kind, NodeKind::ArithVar { ref name } if name == "c"));
            assert!(matches!(left.kind, NodeKind::ArithBinaryOp { ref op, .. } if op == "-"));
        }
        other => panic!("unexpected {other:?}"),
    }
}

#[test]
fn lexer_reads_plain_words() {
    let mut lx = Lexer::new("  hello world", false);
    let t = lx.next_token().unwrap();
    assert_eq!(t.value, "hello");
    assert_eq!(t.pos, 2);
    assert_eq!(t.kind, TokenType::Word);
    let t = lx.next_token().unwrap();
    assert_eq!(t.value, "world");
    assert_eq!(t.pos, 8);
}

#[test]
fn lexer_plain_reserved_word_at_command_start() {
    let mut lx = Lexer::new("if x", false);
    assert_eq!(lx.next_token().unwrap().kind, TokenType::If);
    assert_eq!(lx.next_token().unwrap().kind, TokenType::Word);
}

#[test]
fn case_tracker_expects_patterns_only_inside_case() {
    let mut t = CaseTracker::new();
    t.check_word(&['i', 'n']);
    assert!(!t.is_pattern_close());
    t.check_word(&['c', 'a', 's', 'e']);
    t.check_word(&['i', 'n']);
    assert!(t.is_pattern_close());
    t.close_pattern();
    assert!(!t.is_pattern_close());
    t.resume_pattern();
    assert!(t.is_pattern_close());
    t.check_word(&['e', 's', 'a', 'c']);
    assert!(!t.is_pattern_close());
}

#[test]
fn skip_helpers_stop_after_the_closing_quote() {
    let cs: Vec<char> = "'a\"b' x".chars().collect();
    let mut pos = 0usize;
    let mut out = String::new();
    rable::context::skip_single_quoted(&cs, &mut pos, &mut out);
    assert_eq!(pos, 5);
    assert_eq!(out, "'a\"b'");
    let cs: Vec<char> = "\"a\\\"b\" y".chars().collect();
    let mut pos = 0usize;
    let mut out = String::new();
    rable::context::skip_double_quoted(&cs, &mut pos, &mut out);
    assert_eq!(pos, 6);
    assert_eq!(out, "\"a\\\"b\"");
}

#[test]
fn blank_source_parses_to_no_nodes() {
    assert_eq!(parse("", false).unwrap().len(), 0);
    assert_eq!(parse(" \t  ", false).unwrap().len(), 0);
}

#[test]
fn plain_word_line_parses_to_one_simple_command() {
    let nodes = parse("echo hello world", false).unwrap();
    assert_eq!(nodes.len(), 1);
    match &nodes[0].kind {
        NodeKind::Command { assignments, words, redirects } => {
            assert!(assignments.is_empty());
            assert!(redirects.is_empty());
            let values: Vec<&str> = words
                .iter()
                .map(|w| match &w.kind {
                    NodeKind::Word { value, .. } => value.as_str(),
                    _ => panic!("not a word"),
                })
                .collect();
            assert_eq!(values, vec!["echo", "hello", "world"]);
        }
        _ => panic!("not a command"),
    }
}

#[test]
fn plain_pipeline_parses_to_one_pipeline_node() {
    let nodes = parse("a b | c | d e f", false).unwrap();
    assert_eq!(nodes.len(), 1);
    match &nodes[0].kind {
        NodeKind::Pipeline { commands, separators } => {
            assert_eq!(commands.len(), 3);
            assert_eq!(separators.len(), 2);
            let counts: Vec<usize> = commands
                .iter()
                .map(|c| match &c.kind {
                    NodeKind::Command { words, .. } => words.len(),
                    _ => panic!("not a command"),
                })
                .collect();
            assert_eq!(counts, vec![2, 1, 3]);
        }
        _ => panic!("not a pipeline"),
    }
    assert_eq!(
        nodes[0].to_string(),
        r#"(pipe (command (word "a") (word "b")) (pipe (command (word "c")) (command (word "d") (word "e") (word "f"))))"#
    );
}

#[test]
fn spans_count_bytes_after_a_multibyte_character() {
    let source = "é a";
    let nodes = parse(source, false).unwrap();
    assert_eq!(nodes.len(), 1);
    match &nodes[0].kind {
        NodeKind::Command { words, .. } => {
            assert_eq!(words.len(), 2);
            assert_eq!(words[0].span, Span::new(0, 2));
            assert_eq!(words[1].span, Span::new(3, 4));
            assert_eq!(words[1].source_text(source), "a");
            assert_eq!(words[0].source_text(source), "é");
        }
        _ => panic!("not a command"),
    }
    assert_eq!(nodes[0].source_text(source), "é a");
}

#[test]
fn plain_pipelines_joined_by_semicolons_nest_to_the_left() {
    let nodes = parse("a b; c | d; e", false).unwrap();
    assert_eq!(nodes.len(), 1);
    match &nodes[0].kind {
        NodeKind::List { items } => {
            assert_eq!(items.len(), 2);
            assert_eq!(items[0].operator, Some(ListOperator::Semi));
            assert_eq!(items[1].operator, None);
            match &items[0].command.kind {
                NodeKind::List { items: inner } => {
                    assert_eq!(inner.len(), 2);
                    assert_eq!(inner[0].operator, Some(ListOperator::Semi));
                    assert_eq!(inner[1].operator, None);
                    assert!(matches!(inner[0].command.kind, NodeKind::Command { .. }));
                    assert!(matches!(inner[1].command.kind, NodeKind::Pipeline { .. }));
                }
                _ => panic!("not a list"),
            }
            assert!(matches!(items[1].command.kind, NodeKind::Command { .. }));
        }
        _ => panic!("not a list"),
    }
}

#[test]
fn two_plain_commands_joined_by_a_semicolon() {
    let nodes = parse("a; b", false).unwrap();
    assert_eq!(nodes.len(), 1);
    match &nodes[0].kind {
        NodeKind::List { items } => {
            assert_eq!(items.len(), 2);
            assert_eq!(items[0].operator, Some(ListOperator::Semi));
            assert_eq!(items[1].operator, None);
        }
        _ => panic!("not a list"),
    }
}

#[test]
fn plain_lines_give_one_node_each() {
    let nodes = parse("echo a\n\necho b; c\n", false).unwrap();
    assert_eq!(nodes.len(), 2);
    assert!(matches!(nodes[0].kind, NodeKind::Command { .. }));
    match &nodes[1].kind {
        NodeKind::List { items } => {
            assert_eq!(items.len(), 2);
            assert_eq!(items[0].operator, Some(ListOperator::Semi));
        }
        _ => panic!("not a list"),
    }
    assert_eq!(nodes[0].to_string(), r#"(command (word "echo") (word "a"))"#);
}
