//! A bash parser producing an abstract syntax tree.
use vstd::prelude::*;

pub mod ast;
pub mod context;
pub mod error;
pub mod format;
pub mod lexer;
pub mod parser;
pub mod sexp;
pub mod text;
pub mod token;

pub use ast::{CasePattern, ListItem, ListOperator, Node, NodeKind, PipeSep, Span};
pub use error::{RableError, Result};
pub use token::{Token, TokenType};

verus! {

/// Parses a bash source string into its top-level nodes: each command line
/// becomes one node; commands joined by `;` on one line form a list.
///
/// A blank source gives no node. A source whose lines are plain pipelines
/// (words without operators, quotes, expansions or reserved words, joined
/// by `|`, the pipelines joined by `;`) gives one node per line that is not
/// blank: the line's pipelines joined into lists from the left, each
/// pipeline the simple command of its words or a `Pipeline` of such
/// commands.
pub fn parse(source: &str, extglob: bool) -> (r: Result<Vec<Node>>)
    ensures
        lexer::blanks_end(source@, 0) >= source@.len() ==> (r matches Ok(v) && v@.len() == 0),
        lexer::stream::plain_tokens(source@, 0) is Some
            && parser::plain::doc_lines(lexer::stream::plain_tokens(source@, 0)->0) is Some
            && source@.len() < 0x0080_0000_0000_0000
            ==> (r matches Ok(v) && parser::plain::lines_of(v@,
                parser::plain::doc_lines(lexer::stream::plain_tokens(source@, 0)->0)->0)),
        lexer::stream::plain_tokens(source@, 0) is Some && parser::plain::list_ok(lexer::stream::plain_tokens(source@, 0)->0, 0)
            && parser::plain::list_end(lexer::stream::plain_tokens(source@, 0)->0, 0) == lexer::stream::plain_tokens(source@, 0)->0.len()
            && source@.len() < 0x0080_0000_0000_0000
            ==> (r matches Ok(v) && v@.len() == 1 && parser::plain::semi_list_of(v@[0],
                lexer::stream::plain_tokens(source@, 0)->0,
                parser::plain::list_starts(lexer::stream::plain_tokens(source@, 0)->0, 0))),
        lexer::stream::plain_tokens(source@, 0) is Some && parser::plain::pipe_line(lexer::stream::plain_tokens(source@, 0)->0, 0)
            && source@.len() < 0x0080_0000_0000_0000
            ==> (r matches Ok(v) && v@.len() == 1
                && parser::plain::pipeline_of(v@[0], lexer::stream::plain_tokens(source@, 0)->0, 0)),
        lexer::stream::plain_tokens(source@, 0) is Some && parser::plain::word_line(lexer::stream::plain_tokens(source@, 0)->0)
            && source@.len() < 0x0080_0000_0000_0000
            ==> (r matches Ok(v) && v@.len() == 1 && parser::plain::command_of(
                v@[0], lexer::stream::plain_tokens(source@, 0)->0, 0, lexer::stream::plain_tokens(source@, 0)->0.len() as int)),
{
    let lexer = lexer::Lexer::new(source, extglob);
    proof {
        if lexer::stream::plain_tokens(source@, 0) is Some {
            let ts = lexer::stream::plain_tokens(source@, 0)->0;
            lexer::stream::lemma_plain_tokens_len(source@, 0);
            if parser::plain::word_line(ts) {
                parser::plain::lemma_word_line_pipe(ts);
            }
            if parser::plain::pipe_line(ts, 0) {
                parser::plain::lemma_pipe_line_list(ts, Node::empty_spec());
            }
            if parser::plain::list_ok(ts, 0) && parser::plain::list_end(ts, 0) == ts.len() {
                parser::plain::lemma_one_line(ts);
            }
        }
    }
    let mut parser = parser::Parser::new(lexer);
    let r = parser.parse_all();
    proof {
        if lexer::stream::plain_tokens(source@, 0) is Some {
            let ts = lexer::stream::plain_tokens(source@, 0)->0;
            if parser::plain::list_ok(ts, 0) && parser::plain::list_end(ts, 0) == ts.len() && r is Ok
                && source@.len() < 0x0080_0000_0000_0000 {
                let dl = parser::plain::doc_lines(ts)->0;
                assert(dl[0] == ts);
                assert(parser::plain::semi_list_of(r->Ok_0@[0], dl[0], parser::plain::list_starts(dl[0], 0)));
            }
            if parser::plain::pipe_line(ts, 0) && r is Ok && r->Ok_0@.len() == 1 {
                parser::plain::lemma_pipe_line_list(ts, r->Ok_0@[0]);
            }
        }
    }
    r
}

} // verus!
