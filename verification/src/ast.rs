//! The syntax tree produced by the parser.
use vstd::prelude::*;
use crate::lexer::word_builder::WordSpan;

verus! {

/// Source span: a range of byte offsets (UTF-8) in the original input.
#[derive(Debug, Clone, PartialEq, Eq)]
pub struct Span {
    pub start: usize,
    pub end: usize,
}

impl Span {
    /// Creates a new span with the given offsets.
    pub fn new(start: usize, end: usize) -> (r: Self)
        ensures
            r.start == start,
            r.end == end,
    {
        Span { start, end }
    }

    /// Creates an empty span (used for synthetic nodes).
    pub fn empty() -> (r: Self)
        ensures
            r.start == 0,
            r.end == 0,
    {
        Span { start: 0, end: 0 }
    }

    /// Returns true if this span has no extent (synthetic or unset).
    pub fn is_empty(&self) -> (r: bool)
        ensures
            r == (self.start >= self.end),
    {
        self.start >= self.end
    }
}

/// A spanned AST node combining a [`NodeKind`] with its source [`Span`].
#[derive(Debug, PartialEq)]
pub struct Node {
    pub kind: NodeKind,
    pub span: Span,
}

impl Node {
    /// Creates a new node with the given kind and span.
    pub fn new(kind: NodeKind, span: Span) -> (r: Self)
        ensures
            r.kind == kind,
            r.span == span,
    {
        Node { kind, span }
    }

    /// The empty node, as a value.
    pub open spec fn empty_spec() -> Node {
        Node { kind: NodeKind::Empty, span: Span { start: 0, end: 0 } }
    }

    /// Creates a node with an empty span (for synthetic or temporary nodes).
    pub fn empty(kind: NodeKind) -> (r: Self)
        ensures
            r.kind == kind,
            r.span.start == 0,
            r.span.end == 0,
    {
        Node { kind, span: Span::empty() }
    }

    /// Extracts the source text covered by this node from the source the
    /// node was parsed from. Span offsets count bytes of UTF-8. Empty for
    /// synthetic nodes, for spans that do not fit the source, and for spans
    /// whose ends fall inside a character.
    pub fn source_text(&self, source: &str) -> (r: String)
        ensures
            r@ == span_text(source@, self.span.start as int, self.span.end as int),
    {
        let cs = crate::text::chars_of(source);
        if self.span.is_empty() {
            return String::new();
        }
        let a = char_at_byte(cs.as_slice(), self.span.start);
        let b = char_at_byte(cs.as_slice(), self.span.end);
        match (a, b) {
            (Some(i), Some(j)) => {
                match crate::text::slice_chars(cs.as_slice(), i, j) {
                    Some(v) => crate::text::string_from_chars(v.as_slice()),
                    None => String::new(),
                }
            }
            _ => String::new(),
        }
    }
}

/// The index of the character that starts at byte `b`, scanning from
/// character `i` which starts at byte `acc`; `None` when `b` falls inside
/// a character or past the end.
pub open spec fn char_index_from(s: Seq<char>, b: int, i: int, acc: int) -> Option<int>
    decreases s.len() - i,
{
    if acc == b {
        Some(i)
    } else if acc > b || i < 0 || i >= s.len() {
        None
    } else {
        char_index_from(s, b, i + 1, acc + crate::text::utf8_width(s[i]))
    }
}

/// The text of `s` between bytes `start` and `end`: empty for an empty
/// span or when either end is not the start of a character (or the end
/// of `s`).
pub open spec fn span_text(s: Seq<char>, start: int, end: int) -> Seq<char> {
    if start >= end {
        Seq::empty()
    } else {
        match (char_index_from(s, start, 0, 0), char_index_from(s, end, 0, 0)) {
            (Some(i), Some(j)) => if i <= j && j <= s.len() { s.subrange(i, j) } else { Seq::empty() },
            _ => Seq::empty(),
        }
    }
}

/// Computes `char_index_from(s, b, 0, 0)`.
pub fn char_at_byte(s: &[char], b: usize) -> (r: Option<usize>)
    ensures
        r matches Some(i) ==> char_index_from(s@, b as int, 0, 0) == Some(i as int) && i <= s@.len(),
        r is None ==> char_index_from(s@, b as int, 0, 0) is None,
{
    let mut i: usize = 0;
    let mut acc: usize = 0;
    loop
        invariant
            i <= s@.len(),
            acc <= b,
            char_index_from(s@, b as int, i as int, acc as int) == char_index_from(s@, b as int, 0, 0),
        decreases s@.len() - i,
    {
        if acc == b {
            return Some(i);
        }
        if i >= s.len() {
            return None;
        }
        let c = s[i];
        let w: usize = if (c as u32) < 0x80 { 1 } else if (c as u32) < 0x800 { 2 } else if (c as u32) < 0x10000 { 3 } else { 4 };
        assert(w == crate::text::utf8_width(c));
        if w > b - acc {
            return None;
        }
        acc = acc + w;
        i = i + 1;
    }
}

/// AST node kinds for all bash constructs.
#[derive(Debug, PartialEq)]
pub enum NodeKind {
    /// A word token; `parts` holds its decomposition into expansions.
    Word { value: String, parts: Vec<Node>, spans: Vec<WordSpan> },
    /// A literal piece of a word.
    WordLiteral { value: String },
    /// A simple command: assignments, words, and redirects.
    Command { assignments: Vec<Node>, words: Vec<Node>, redirects: Vec<Node> },
    /// A pipeline of commands separated by `|` or `|&`.
    Pipeline { commands: Vec<Node>, separators: Vec<PipeSep> },
    /// A list of commands with operators (`;`, `&&`, `||`, `&`, newline).
    List { items: Vec<ListItem> },
    /// `if condition; then body; [elif ...; then ...;] [else ...;] fi`
    If {
        condition: Box<Node>,
        then_body: Box<Node>,
        else_body: Option<Box<Node>>,
        redirects: Vec<Node>,
    },
    /// `while condition; do body; done`
    While { condition: Box<Node>, body: Box<Node>, redirects: Vec<Node> },
    /// `until condition; do body; done`
    Until { condition: Box<Node>, body: Box<Node>, redirects: Vec<Node> },
    /// `for var [in words]; do body; done`
    For { var: String, words: Option<Vec<Node>>, body: Box<Node>, redirects: Vec<Node> },
    /// C-style `for (( init; cond; incr )); do body; done`
    ForArith { init: String, cond: String, incr: String, body: Box<Node>, redirects: Vec<Node> },
    /// `select var [in words]; do body; done`
    Select { var: String, words: Option<Vec<Node>>, body: Box<Node>, redirects: Vec<Node> },
    /// `case word in pattern) body;; ... esac`
    Case { word: Box<Node>, patterns: Vec<CasePattern>, redirects: Vec<Node> },
    /// A function definition.
    Function { name: String, body: Box<Node> },
    /// A subshell: `( commands )`
    Subshell { body: Box<Node>, redirects: Vec<Node> },
    /// A brace group: `{ commands; }`
    BraceGroup { body: Box<Node>, redirects: Vec<Node> },
    /// A coprocess: `coproc [name] command`
    Coproc { name: Option<String>, command: Box<Node> },
    /// I/O redirection: `[fd]op target`
    Redirect { op: String, target: Box<Node>, fd: i32, varfd: Option<String> },
    /// Here-document: `<<[-]DELIM\ncontent\nDELIM`
    HereDoc {
        delimiter: String,
        content: String,
        strip_tabs: bool,
        quoted: bool,
        fd: i32,
        complete: bool,
    },
    /// Parameter expansion: `$var` or `${var[op arg]}`
    ParamExpansion { param: String, op: Option<String>, arg: Option<String> },
    /// Parameter length: `${#var}`
    ParamLength { param: String },
    /// Indirect expansion: `${!var[op arg]}`
    ParamIndirect { param: String, op: Option<String>, arg: Option<String> },
    /// Command substitution: `$(cmd)` or `` `cmd` ``
    CommandSubstitution { command: Box<Node>, brace: bool },
    /// Process substitution: `<(cmd)` or `>(cmd)`
    ProcessSubstitution { direction: String, command: Box<Node> },
    /// ANSI-C quoting `$'...'`: raw content and decoded text.
    AnsiCQuote { content: String, decoded: String },
    /// Locale string `$"..."`: content with its quotes and the inner text.
    LocaleString { content: String, inner: String },
    /// Brace expansion `{a,b}` / `{1..9}`.
    BraceExpansion { content: String },
    /// Arithmetic expansion: `$(( expr ))`
    ArithmeticExpansion { expression: Option<Box<Node>> },
    /// Arithmetic command: `(( expr ))`
    ArithmeticCommand { expression: Option<Box<Node>>, redirects: Vec<Node>, raw_content: String },
    /// A numeric literal in arithmetic context.
    ArithNumber { value: String },
    /// A variable reference in arithmetic context.
    ArithVar { name: String },
    /// A binary operation in arithmetic context.
    ArithBinaryOp { op: String, left: Box<Node>, right: Box<Node> },
    /// A unary operation in arithmetic context.
    ArithUnaryOp { op: String, operand: Box<Node> },
    /// Pre-increment `++var`.
    ArithPreIncr { operand: Box<Node> },
    /// Post-increment `var++`.
    ArithPostIncr { operand: Box<Node> },
    /// Pre-decrement `--var`.
    ArithPreDecr { operand: Box<Node> },
    /// Post-decrement `var--`.
    ArithPostDecr { operand: Box<Node> },
    /// Assignment in arithmetic context.
    ArithAssign { op: String, target: Box<Node>, value: Box<Node> },
    /// Ternary `cond ? a : b`.
    ArithTernary {
        condition: Box<Node>,
        if_true: Option<Box<Node>>,
        if_false: Option<Box<Node>>,
    },
    /// Comma operator in arithmetic context.
    ArithComma { left: Box<Node>, right: Box<Node> },
    /// Array subscript in arithmetic context.
    ArithSubscript { array: String, index: Box<Node> },
    /// Empty arithmetic expression.
    ArithEmpty,
    /// An escaped character in arithmetic context.
    ArithEscape { ch: String },
    /// Deprecated `$[expr]` arithmetic.
    ArithDeprecated { expression: String },
    /// Concatenation in arithmetic context.
    ArithConcat { parts: Vec<Node> },
    /// `[[ expr ]]`
    ConditionalExpr { body: Box<Node>, redirects: Vec<Node> },
    /// Unary test: `-f file`, `-z string`, etc.
    UnaryTest { op: String, operand: Box<Node> },
    /// Binary test: `a == b`, `a -nt b`, etc.
    BinaryTest { op: String, left: Box<Node>, right: Box<Node> },
    /// `[[ a && b ]]`
    CondAnd { left: Box<Node>, right: Box<Node> },
    /// `[[ a || b ]]`
    CondOr { left: Box<Node>, right: Box<Node> },
    /// `[[ ! expr ]]`
    CondNot { operand: Box<Node> },
    /// `[[ ( expr ) ]]`
    CondParen { inner: Box<Node> },
    /// A term (word) in a conditional expression.
    CondTerm { value: String, spans: Vec<WordSpan> },
    /// Pipeline negation with `!`.
    Negation { pipeline: Box<Node> },
    /// `time [-p] pipeline`
    Time { pipeline: Box<Node>, posix: bool },
    /// Array literal: `(a b c)`.
    Array { elements: Vec<Node> },
    /// An empty node.
    Empty,
    /// A comment: `# text`.
    Comment { text: String },
}

/// Operator between commands in a list.
#[derive(Debug, Clone, Copy, PartialEq, Eq, Structural)]
pub enum ListOperator {
    /// `&&`
    And,
    /// `||`
    Or,
    /// `;` or newline
    Semi,
    /// `&`
    Background,
}

/// Separator between commands in a pipeline.
#[derive(Debug, Clone, Copy, PartialEq, Eq, Structural)]
pub enum PipeSep {
    /// `|`
    Pipe,
    /// `|&`
    PipeBoth,
}

/// An item in a command list: a command with an optional trailing operator.
#[derive(Debug, PartialEq)]
pub struct ListItem {
    pub command: Node,
    pub operator: Option<ListOperator>,
}

/// A single clause within a `case` statement.
#[derive(Debug, PartialEq)]
pub struct CasePattern {
    pub patterns: Vec<Node>,
    pub body: Option<Node>,
    pub terminator: String,
}

impl CasePattern {
    /// Creates a case clause.
    pub fn new(patterns: Vec<Node>, body: Option<Node>, terminator: String) -> (r: Self)
        ensures
            r.patterns == patterns,
            r.body == body,
            r.terminator == terminator,
    {
        CasePattern { patterns, body, terminator }
    }
}

} // verus!
