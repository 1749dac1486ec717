//! Command, process and arithmetic substitutions inside words.
use vstd::prelude::*;
use crate::ast::{ListItem, Node, NodeKind, Span};
use crate::error::Result;
use crate::lexer::{Fuel, Lexer};
use crate::parser::Parser;
use crate::text::{extend_chars, string_from_chars};
use super::literal_fallback;

verus! {

/// How many word decompositions may enclose a nested parse of a
/// substitution; deeper substitutions stay literal text.
pub const MAX_DECOMPOSE_NEST: usize = 2;

/// `$((...))`: the parsed expression, or no expression when it does not parse.
pub fn arithmetic_sub_to_node(inner: &[char]) -> (r: Node)
    ensures
        r.kind is ArithmeticExpansion,
{
    let expression = match crate::parser::arithmetic::parse_arith_chars(inner) {
        Ok(e) => Some(Box::new(e)),
        Err(_) => None,
    };
    Node::empty(NodeKind::ArithmeticExpansion { expression })
}

/// A command substitution part: the parsed command, or the text
/// `$(content)` as a literal.
pub open spec fn cmdsub_fits(content: Seq<char>, n: Node) -> bool {
    ||| n.kind matches NodeKind::CommandSubstitution { brace, .. } && !brace
    ||| n.kind matches NodeKind::WordLiteral { value } && value@ == seq!['$', '('] + content + seq![')']
}

/// A process substitution part: the parsed command with its direction, or
/// the text `<(content)` / `>(content)` as a literal.
pub open spec fn procsub_fits(direction: char, content: Seq<char>, n: Node) -> bool {
    ||| n.kind matches NodeKind::ProcessSubstitution { direction: d, .. } && d@ == seq![direction]
    ||| n.kind matches NodeKind::WordLiteral { value } && value@ == seq![direction, '('] + content + seq![')']
}

/// `$(...)`: the parsed command, or the text as a literal when it does not parse.
pub fn cmdsub_to_node(content: &[char], fuel: &mut Fuel) -> (r: Result<Node>)
    ensures
        final(fuel).budget <= old(fuel).budget,
        final(fuel).nest == old(fuel).nest,
        r is Ok ==> cmdsub_fits(content@, r->Ok_0),
        r is Ok && old(fuel).nest >= MAX_DECOMPOSE_NEST ==> r->Ok_0.kind is WordLiteral,
        r is Err ==> final(fuel).budget == 0,
        old(fuel).budget > 0 && old(fuel).nest >= MAX_DECOMPOSE_NEST ==> (r matches Ok(n) && n.kind matches
            NodeKind::WordLiteral { value } && value@ == seq!['$', '('] + content@ + seq![')']),
    decreases old(fuel).budget,
{
    fuel.tick(0, 1)?;
    let mut fallback: Vec<char> = vec!['$', '('];
    extend_chars(&mut fallback, content);
    fallback.push(')');
    assert(fallback@ =~= seq!['$', '('] + content@ + seq![')']);
    match parse_sub(content, fuel)? {
        Some(cmd) => Ok(Node::empty(NodeKind::CommandSubstitution { command: Box::new(cmd), brace: false })),
        None => Ok(literal_fallback(fallback.as_slice())),
    }
}

/// `<(...)` / `>(...)`: the parsed command, or the text as a literal.
pub fn procsub_to_node(direction: char, content: &[char], fuel: &mut Fuel) -> (r: Result<Node>)
    ensures
        final(fuel).budget <= old(fuel).budget,
        final(fuel).nest == old(fuel).nest,
        r is Ok ==> procsub_fits(direction, content@, r->Ok_0),
        r is Ok && old(fuel).nest >= MAX_DECOMPOSE_NEST ==> r->Ok_0.kind is WordLiteral,
        r is Err ==> final(fuel).budget == 0,
        old(fuel).budget > 0 && old(fuel).nest >= MAX_DECOMPOSE_NEST ==> (r matches Ok(n) && n.kind matches
            NodeKind::WordLiteral { value } && value@ == seq![direction, '('] + content@ + seq![')']),
    decreases old(fuel).budget,
{
    fuel.tick(0, 1)?;
    let mut fallback: Vec<char> = vec![direction, '('];
    extend_chars(&mut fallback, content);
    fallback.push(')');
    assert(fallback@ =~= seq![direction, '('] + content@ + seq![')']);
    match parse_sub(content, fuel)? {
        Some(cmd) => {
            let d = string_from_chars(&[direction]);
            assert(d@ =~= seq![direction]);
            Ok(Node::empty(NodeKind::ProcessSubstitution { direction: d, command: Box::new(cmd) }))
        }
        None => Ok(literal_fallback(fallback.as_slice())),
    }
}

/// Parses substitution content as a script, one nesting level deeper.
/// `None` when the nesting limit is reached or the content does not parse.
pub fn parse_sub(content: &[char], fuel: &mut Fuel) -> (r: Result<Option<Node>>)
    ensures
        final(fuel).budget <= old(fuel).budget,
        final(fuel).nest == old(fuel).nest,
        old(fuel).nest >= MAX_DECOMPOSE_NEST ==> r matches Ok(None),
        r is Err ==> final(fuel).budget == 0,
    decreases old(fuel).budget,
{
    if fuel.nest >= MAX_DECOMPOSE_NEST {
        return Ok(None);
    }
    fuel.tick(0, 1)?;
    let inner = Fuel { budget: fuel.budget, nest: fuel.nest + 1 };
    let mut parser = Parser::new(Lexer::with_fuel(crate::text::copy_chars(content), false, inner));
    let res = parser.parse_all();
    fuel.budget = parser.lexer.fuel.budget;
    match res {
        Ok(nodes) => Ok(Some(wrap_nodes(nodes))),
        Err(_) => Ok(None),
    }
}

/// Wraps parsed top-level nodes into one node.
pub fn wrap_nodes(nodes: Vec<Node>) -> (r: Node)
    ensures
        nodes@.len() == 0 ==> r.kind is Empty,
        nodes@.len() == 1 ==> r == nodes@[0],
        nodes@.len() > 1 ==> r.kind is List,
{
    let mut nodes = nodes;
    let n = nodes.len();
    if n == 0 {
        Node::empty(NodeKind::Empty)
    } else if n == 1 {
        nodes.swap_remove(0)
    } else {
        let mut items: Vec<ListItem> = Vec::new();
        let mut i: usize = 0;
        while i < n
            invariant
                nodes@.len() == n - i,
            decreases n - i,
        {
            let node = nodes.remove(0);
            items.push(ListItem { command: node, operator: None });
            i = i + 1;
        }
        Node::new(NodeKind::List { items }, Span::empty())
    }
}

} // verus!
