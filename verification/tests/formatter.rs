use rable::format::Formatter;

#[test]
fn finish_trims_trailing_spaces_and_tabs_but_keeps_newlines() {
    // The trim contract preserves trailing `\n` because heredoc
    // bodies end in a newline the caller relies on.
    let mut f = Formatter::new();
    f.write_str("hello\n   \t  ");
    assert_eq!(f.finish(), "hello\n");

    let mut f = Formatter::new();
    f.write_str("body\n");
    assert_eq!(f.finish(), "body\n");

    let mut f = Formatter::new();
    f.write_str("  ");
    assert_eq!(f.finish(), "");
}

#[test]
fn with_indent_restores_on_normal_return() {
    let f = Formatter::new();
    let mut f = f.with_indent(4, |mut g| {
        g.indent_here();
        g.write_str("x");
        g
    });
    f.write_str("|after");
    assert_eq!(f.finish(), "    x|after");
}
