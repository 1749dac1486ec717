use rable::ast::{ListOperator, Node, NodeKind, PipeSep};
use rable::lexer::Lexer;
use rable::parser::Parser;


#[allow(clippy::unwrap_used)]
fn parse(source: &str) -> Vec<Node> {
    let lexer = Lexer::new(source, false);
    let mut parser = Parser::new(lexer);
    parser.parse_all().unwrap()
}

#[test]
fn parser_simple_command() {
    let nodes = parse("echo hello");
    assert_eq!(nodes.len(), 1);
    let output = nodes[0].to_string();
    assert_eq!(output, r#"(command (word "echo") (word "hello"))"#);
}

#[test]
fn parser_pipeline() {
    let nodes = parse("ls | grep foo");
    assert_eq!(nodes.len(), 1);
    let output = nodes[0].to_string();
    assert_eq!(
        output,
        r#"(pipe (command (word "ls")) (command (word "grep") (word "foo")))"#
    );
}

#[test]
fn parser_and_list() {
    let nodes = parse("a && b");
    assert_eq!(nodes.len(), 1);
    let output = nodes[0].to_string();
    assert_eq!(output, r#"(and (command (word "a")) (command (word "b")))"#);
}

#[test]
fn parser_or_list() {
    let nodes = parse("a || b");
    let output = nodes[0].to_string();
    assert_eq!(output, r#"(or (command (word "a")) (command (word "b")))"#);
}

#[test]
fn parser_redirect_output() {
    let nodes = parse("echo hello > file.txt");
    let output = nodes[0].to_string();
    assert_eq!(
        output,
        r#"(command (word "echo") (word "hello") (redirect ">" "file.txt"))"#
    );
}

#[test]
fn parser_if_then_fi() {
    let nodes = parse("if true; then echo yes; fi");
    assert_eq!(nodes.len(), 1);
    let output = nodes[0].to_string();
    assert!(output.starts_with("(if "));
}

#[test]
fn parser_while_loop() {
    let nodes = parse("while true; do echo yes; done");
    assert_eq!(nodes.len(), 1);
    let output = nodes[0].to_string();
    assert!(output.starts_with("(while "));
}

#[test]
fn parser_for_loop() {
    let nodes = parse("for x in a b c; do echo $x; done");
    assert_eq!(nodes.len(), 1);
    let output = nodes[0].to_string();
    assert!(output.starts_with("(for "));
}

#[test]
fn parser_subshell() {
    let nodes = parse("(echo hello)");
    let output = nodes[0].to_string();
    assert!(output.starts_with("(subshell "));
}

#[test]
fn parser_brace_group() {
    let nodes = parse("{ echo hello; }");
    let output = nodes[0].to_string();
    assert!(output.starts_with("(brace-group "));
}

#[test]
fn parser_negation() {
    let nodes = parse("! true");
    let output = nodes[0].to_string();
    assert!(output.starts_with("(negation "));
}

#[test]
fn parser_cstyle_for() {
    let nodes = parse("for ((i=0; i<10; i++)); do echo $i; done");
    let output = nodes[0].to_string();
    let expected = r#"(arith-for (init (word "i=0")) (test (word "i<10")) (step (word "i++")) (command (word "echo") (word "$i")))"#;
    assert_eq!(output, expected);
}

#[test]
fn parser_background() {
    let nodes = parse("echo foo &");
    let output = nodes[0].to_string();
    assert_eq!(
        output,
        r#"(background (command (word "echo") (word "foo")))"#
    );
}

#[test]
fn parser_conditional_expr() {
    let nodes = parse("[[ -f file ]]");
    let output = nodes[0].to_string();
    assert_eq!(output, r#"(cond (cond-unary "-f" (cond-term "file")))"#);
}

#[test]
fn parser_cmdsub_while_reformat() {
    let nodes = parse("echo $(while false; do echo x; done)");
    let output = nodes[0].to_string();
    assert_eq!(
        output,
        r#"(command (word "echo") (word "$(while false; do\n    echo x;\ndone)"))"#,
    );
}

#[test]
fn parser_cmdsub_if_else_reformat() {
    let nodes = parse("echo $(if true; then echo yes; else echo no; fi)");
    let output = nodes[0].to_string();
    assert_eq!(
        output,
        r#"(command (word "echo") (word "$(if true; then\n    echo yes;\nelse\n    echo no;\nfi)"))"#,
    );
}

#[test]
#[allow(clippy::unwrap_used)]
fn parser_extglob_star() {
    let lexer = Lexer::new("*(a|b)", true);
    let mut parser = Parser::new(lexer);
    let nodes = parser.parse_all().unwrap();
    let output = nodes[0].to_string();
    assert_eq!(output, r#"(command (word "*(a|b)"))"#);
}

#[test]
#[allow(clippy::unwrap_used)]
fn parser_extglob_star_in_case() {
    let nodes =
        rable::parse("# @extglob\ncase $x in *(a|b|c)) echo match;; esac", true).unwrap();
    let output = nodes[0].to_string();
    assert!(
        output.contains(r#"(word "*(a|b|c)")"#),
        "expected extglob word, got: {output}"
    );
}

#[test]
fn parser_arith_command() {
    let nodes = parse("((x = 5))");
    let output = nodes[0].to_string();
    assert_eq!(output, r#"(arith (word "x = 5"))"#);
}
