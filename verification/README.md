# rable

A GNU Bash parser that turns bash source into syntax trees and prints them
as S-expressions, written in Verus: the library's functions carry
`requires`/`ensures` contracts that Verus proves.

Layout:

- `src/lexer/` — tokens, quoting, expansions and heredocs; the spans that a
  word records always lie within its text.
- `src/parser/` — the recursive-descent parser, conditional and arithmetic
  sub-parsers, and the decomposition of words into parts.
- `src/sexp/` — the S-expression printer. `sexp::model::sexp_text` states
  the printed text of a tree as a function of the tree; the printer is
  proved to write exactly that text wherever no word holds a command or
  process substitution.
- `src/format/` — the canonical bash layout used for substitution bodies.
  `format::layout::fmt_text` states that layout as a function of the tree
  and the indentation, and `Formatter::format_node` is proved to write it.
  `reformat_bash` re-parses its input first; its contract states when it
  returns `None`, and for a pipeline of plain words that it returns the
  layout of that pipeline's tree.
- `src/text.rs`, `src/token.rs`, `src/ast.rs`, `src/error.rs` — shared
  text helpers, tokens, the tree and errors. Node spans count bytes of
  UTF-8, as `Node::source_text` slices them; token positions, error
  positions and lexer positions count characters, and the parser converts
  them when it builds a span.
- `src/lexer/stream.rs`, `src/parser/plain.rs` — the tokens of plain
  command lines and what they parse to; `parse`'s contract states the tree
  of any source whose lines are plain words joined by `|` and `;`: one
  node per line that is not blank.
- `app/` — the Python bindings (PyO3) and an error type with `Display`.
- `tests/` — unit and behaviour tests, run against the compiled library.
