//! Precedence-climbing parser from arithmetic tokens to `Arith*` nodes.
use vstd::prelude::*;
use crate::ast::{Node, NodeKind};
use crate::error::Result;
use super::tokenizer::Tok;
use super::{err, mk, MAX_ARITH_DEPTH};
use crate::sexp::model::sexp_text;

verus! {

/// Parser state over a token list.
pub struct ArithParser {
    pub tokens: Vec<Tok>,
    pub pos: usize,
    pub depth: usize,
}

/// `b` is a later state of `a`: same tokens and depth, no earlier position.
pub open spec fn moved_on(a: ArithParser, b: ArithParser) -> bool {
    &&& b.tokens@ == a.tokens@
    &&& a.pos <= b.pos <= b.tokens@.len()
    &&& b.depth == a.depth
}

/// A token that is an operand on its own: a number or a name.
pub open spec fn is_operand_tok(t: Tok) -> bool {
    t is Number || t is Ident
}

/// `+` or `-`.
pub open spec fn is_additive_tok(t: Tok) -> bool {
    t is Plus || t is Minus
}

/// `n` is the node for the operand token `t`.
pub open spec fn operand_node_of(n: Node, t: Tok) -> bool {
    ||| (t matches Tok::Number(v) && n.kind matches NodeKind::ArithNumber { value } && value == v)
    ||| (t matches Tok::Ident(v) && n.kind matches NodeKind::ArithVar { name } && name == v)
}

/// An operand at `p`, followed by the end or by `+` or `-`.
pub open spec fn operand_then(t: Seq<Tok>, p: int) -> bool {
    &&& 0 <= p < t.len()
    &&& is_operand_tok(t[p])
    &&& (p + 1 == t.len() || is_additive_tok(t[p + 1]))
}

/// From `p` to the end the tokens are operands joined by `+` and `-`.
pub open spec fn additive_chain(t: Seq<Tok>, p: int) -> bool
    decreases t.len() - p,
{
    operand_then(t, p) && (if p + 1 < t.len() { additive_chain(t, p + 2) } else { true })
}

/// `n` is the operands `t[p]`, `t[p + 2]`, ..., `t[q]` combined by the
/// `+` and `-` between them from the left: `a - b - c` is `(a - b) - c`.
pub open spec fn left_additive(n: Node, t: Seq<Tok>, p: int, q: int) -> bool
    decreases q - p,
{
    if q < p + 2 {
        q == p && operand_node_of(n, t[p])
    } else {
        &&& n.kind is ArithBinaryOp
        &&& n.kind->ArithBinaryOp_op@ == (if t[q - 1] is Plus { "+"@ } else { "-"@ })
        &&& operand_node_of(*n.kind->ArithBinaryOp_right, t[q])
        &&& left_additive(*n.kind->ArithBinaryOp_left, t, p, q - 2)
    }
}

/// Binary operation node.
pub fn binop(op: &str, left: Node, right: Node) -> (r: Node)
    ensures
        r.kind is ArithBinaryOp,
        r.kind->ArithBinaryOp_op@ == op@,
        *r.kind->ArithBinaryOp_left == left,
        *r.kind->ArithBinaryOp_right == right,
{
    mk(NodeKind::ArithBinaryOp { op: op.to_string(), left: Box::new(left), right: Box::new(right) })
}

/// Unary operation node.
pub fn unop(op: &str, operand: Node) -> (r: Node)
    ensures
        r.kind is ArithUnaryOp,
        r.kind->ArithUnaryOp_op@ == op@,
        *r.kind->ArithUnaryOp_operand == operand,
{
    mk(NodeKind::ArithUnaryOp { op: op.to_string(), operand: Box::new(operand) })
}

/// The spelling of an assignment operator token.
pub open spec fn assign_op_spec(tok: Tok) -> Option<Seq<char>> {
    match tok {
        Tok::Assign => Some("="@),
        Tok::AddAssign => Some("+="@),
        Tok::SubAssign => Some("-="@),
        Tok::MulAssign => Some("*="@),
        Tok::DivAssign => Some("/="@),
        Tok::ModAssign => Some("%="@),
        Tok::ShlAssign => Some("<<="@),
        Tok::ShrAssign => Some(">>="@),
        Tok::AndAssign => Some("&="@),
        Tok::XorAssign => Some("^="@),
        Tok::OrAssign => Some("|="@),
        _ => None,
    }
}

/// The arithmetic operator token that the tokenizer reads from `s`, by
/// its length.
pub open spec fn op_spelled(s: Seq<char>) -> Option<Tok> {
    if s.len() == 3 {
        super::tokenizer::three_char_op(s[0], s[1], s[2])
    } else if s.len() == 2 {
        super::tokenizer::two_char_op(s[0], s[1])
    } else if s.len() == 1 {
        super::tokenizer::one_char_op(s[0])
    } else {
        None
    }
}

/// An assignment operator's spelling is read back by the tokenizer as that
/// same operator: an assignment keeps the operator it was written with.
pub proof fn lemma_assign_op_round_trip(t: Tok)
    requires
        assign_op_spec(t) is Some,
    ensures
        op_spelled(assign_op_spec(t)->0) == Some(t),
{
    reveal_strlit("=");
    reveal_strlit("+=");
    reveal_strlit("-=");
    reveal_strlit("*=");
    reveal_strlit("/=");
    reveal_strlit("%=");
    reveal_strlit("<<=");
    reveal_strlit(">>=");
    reveal_strlit("&=");
    reveal_strlit("^=");
    reveal_strlit("|=");
}

/// The spelling of an assignment operator token.
pub fn assign_op(tok: &Tok) -> (r: Option<&'static str>)
    ensures
        r is Some <==> assign_op_spec(*tok) is Some,
        r is Some ==> r->0@ == assign_op_spec(*tok)->0,
{
    match tok {
        Tok::Assign => Some("="),
        Tok::AddAssign => Some("+="),
        Tok::SubAssign => Some("-="),
        Tok::MulAssign => Some("*="),
        Tok::DivAssign => Some("/="),
        Tok::ModAssign => Some("%="),
        Tok::ShlAssign => Some("<<="),
        Tok::ShrAssign => Some(">>="),
        Tok::AndAssign => Some("&="),
        Tok::XorAssign => Some("^="),
        Tok::OrAssign => Some("|="),
        _ => None,
    }
}

impl ArithParser {
    /// A parser at the first token.
    pub fn new(tokens: Vec<Tok>) -> (r: Self)
        ensures
            r.tokens == tokens,
            r.pos == 0,
            r.depth == 0,
    {
        ArithParser { tokens, pos: 0, depth: 0 }
    }

    /// The current token, if any.
    pub fn peek(&self) -> (r: Option<&Tok>)
        ensures
            self.pos < self.tokens@.len() ==> r == Some(&self.tokens@[self.pos as int]),
            self.pos >= self.tokens@.len() ==> r is None,
    {
        if self.pos < self.tokens.len() {
            Some(&self.tokens[self.pos])
        } else {
            None
        }
    }

    /// True when every token has been used.
    pub fn at_end(&self) -> (r: bool)
        ensures
            r == (self.pos >= self.tokens@.len()),
    {
        self.pos >= self.tokens.len()
    }

    /// Moves past the current token.
    pub fn bump(&mut self)
        requires
            old(self).pos < old(self).tokens.len(),
        ensures
            final(self).pos == old(self).pos + 1,
            final(self).tokens == old(self).tokens,
            final(self).depth == old(self).depth,
    {
        self.pos = self.pos + 1;
    }

    /// A full expression (comma level); empty when no token is left.
    pub fn parse_expression(&mut self) -> (r: Result<Node>)
        requires
            old(self).pos <= old(self).tokens@.len(),
        ensures
            moved_on(*old(self), *final(self)),
            r is Ok ==> sexp_text(r->Ok_0) is Some,
            old(self).pos >= old(self).tokens@.len() ==> (r matches Ok(n) && n.kind is ArithEmpty),
            additive_chain(old(self).tokens@, old(self).pos as int) && old(self).depth < MAX_ARITH_DEPTH ==> r is Ok
                && left_additive(r->Ok_0, old(self).tokens@, old(self).pos as int, old(self).tokens@.len() - 1)
                && final(self).pos == old(self).tokens@.len(),
        decreases old(self).tokens@.len() - old(self).pos, 20nat,
    {
        if self.at_end() {
            return Ok(mk(NodeKind::ArithEmpty));
        }
        if self.depth >= MAX_ARITH_DEPTH {
            return Err(err("arithmetic expression nested too deeply"));
        }
        self.depth = self.depth + 1;
        let result = self.parse_comma();
        self.depth = self.depth - 1;
        result
    }

    fn parse_comma(&mut self) -> (r: Result<Node>)
        requires
            old(self).pos <= old(self).tokens@.len(),
        ensures
            moved_on(*old(self), *final(self)),
            r is Ok ==> sexp_text(r->Ok_0) is Some,
            additive_chain(old(self).tokens@, old(self).pos as int) ==> r is Ok
                && left_additive(r->Ok_0, old(self).tokens@, old(self).pos as int, old(self).tokens@.len() - 1)
                && final(self).pos == old(self).tokens@.len(),
        decreases old(self).tokens@.len() - old(self).pos, 19nat,
    {
        let mut left = self.parse_assign()?;
        loop
            invariant
                moved_on(*old(self), *self),
                sexp_text(left) is Some,
                additive_chain(old(self).tokens@, old(self).pos as int) ==> self.pos == self.tokens@.len()
                    && left_additive(left, old(self).tokens@, old(self).pos as int, old(self).tokens@.len() - 1),
            decreases self.tokens@.len() - self.pos,
        {
            match self.peek() {
                Some(Tok::Comma) => {},
                _ => break,
            }
            self.bump();
            let right = self.parse_assign()?;
            left = mk(NodeKind::ArithComma { left: Box::new(left), right: Box::new(right) });
        }
        Ok(left)
    }

    fn parse_assign(&mut self) -> (r: Result<Node>)
        requires
            old(self).pos <= old(self).tokens@.len(),
        ensures
            moved_on(*old(self), *final(self)),
            r is Ok ==> sexp_text(r->Ok_0) is Some,
            additive_chain(old(self).tokens@, old(self).pos as int) ==> r is Ok
                && left_additive(r->Ok_0, old(self).tokens@, old(self).pos as int, old(self).tokens@.len() - 1)
                && final(self).pos == old(self).tokens@.len(),
        decreases old(self).tokens@.len() - old(self).pos, 18nat,
    {
        let left = self.parse_ternary()?;
        let op = match self.peek() {
            Some(t) => assign_op(t),
            None => None,
        };
        match op {
            None => Ok(left),
            Some(op) => {
                self.bump();
                let right = self.parse_assign()?;
                Ok(mk(NodeKind::ArithAssign { op: op.to_string(), target: Box::new(left), value: Box::new(right) }))
            }
        }
    }

    fn parse_ternary(&mut self) -> (r: Result<Node>)
        requires
            old(self).pos <= old(self).tokens@.len(),
        ensures
            moved_on(*old(self), *final(self)),
            r is Ok ==> sexp_text(r->Ok_0) is Some,
            additive_chain(old(self).tokens@, old(self).pos as int) ==> r is Ok
                && left_additive(r->Ok_0, old(self).tokens@, old(self).pos as int, old(self).tokens@.len() - 1)
                && final(self).pos == old(self).tokens@.len(),
        decreases old(self).tokens@.len() - old(self).pos, 17nat,
    {
        let cond = self.parse_logical_or()?;
        match self.peek() {
            Some(Tok::Question) => {},
            _ => return Ok(cond),
        }
        self.bump();
        let if_true = match self.peek() {
            Some(Tok::Colon) => None,
            _ => Some(Box::new(self.parse_expression()?)),
        };
        match self.peek() {
            Some(Tok::Colon) => {},
            _ => return Err(err("expected ':' in ternary arithmetic expression")),
        }
        self.bump();
        let if_false = Some(Box::new(self.parse_assign()?));
        Ok(mk(NodeKind::ArithTernary { condition: Box::new(cond), if_true, if_false }))
    }

    fn parse_logical_or(&mut self) -> (r: Result<Node>)
        requires
            old(self).pos <= old(self).tokens@.len(),
        ensures
            moved_on(*old(self), *final(self)),
            r is Ok ==> sexp_text(r->Ok_0) is Some,
            additive_chain(old(self).tokens@, old(self).pos as int) ==> r is Ok
                && left_additive(r->Ok_0, old(self).tokens@, old(self).pos as int, old(self).tokens@.len() - 1)
                && final(self).pos == old(self).tokens@.len(),
        decreases old(self).tokens@.len() - old(self).pos, 16nat,
    {
        let mut left = self.parse_logical_and()?;
        loop
            invariant
                moved_on(*old(self), *self),
                sexp_text(left) is Some,
                additive_chain(old(self).tokens@, old(self).pos as int) ==> self.pos == self.tokens@.len()
                    && left_additive(left, old(self).tokens@, old(self).pos as int, old(self).tokens@.len() - 1),
            decreases self.tokens@.len() - self.pos,
        {
            match self.peek() {
                Some(Tok::PipePipe) => {},
                _ => break,
            }
            self.bump();
            let right = self.parse_logical_and()?;
            left = binop("||", left, right);
        }
        Ok(left)
    }

    fn parse_logical_and(&mut self) -> (r: Result<Node>)
        requires
            old(self).pos <= old(self).tokens@.len(),
        ensures
            moved_on(*old(self), *final(self)),
            r is Ok ==> sexp_text(r->Ok_0) is Some,
            additive_chain(old(self).tokens@, old(self).pos as int) ==> r is Ok
                && left_additive(r->Ok_0, old(self).tokens@, old(self).pos as int, old(self).tokens@.len() - 1)
                && final(self).pos == old(self).tokens@.len(),
        decreases old(self).tokens@.len() - old(self).pos, 15nat,
    {
        let mut left = self.parse_bitwise_or()?;
        loop
            invariant
                moved_on(*old(self), *self),
                sexp_text(left) is Some,
                additive_chain(old(self).tokens@, old(self).pos as int) ==> self.pos == self.tokens@.len()
                    && left_additive(left, old(self).tokens@, old(self).pos as int, old(self).tokens@.len() - 1),
            decreases self.tokens@.len() - self.pos,
        {
            match self.peek() {
                Some(Tok::AmpAmp) => {},
                _ => break,
            }
            self.bump();
            let right = self.parse_bitwise_or()?;
            left = binop("&&", left, right);
        }
        Ok(left)
    }

    fn parse_bitwise_or(&mut self) -> (r: Result<Node>)
        requires
            old(self).pos <= old(self).tokens@.len(),
        ensures
            moved_on(*old(self), *final(self)),
            r is Ok ==> sexp_text(r->Ok_0) is Some,
            additive_chain(old(self).tokens@, old(self).pos as int) ==> r is Ok
                && left_additive(r->Ok_0, old(self).tokens@, old(self).pos as int, old(self).tokens@.len() - 1)
                && final(self).pos == old(self).tokens@.len(),
        decreases old(self).tokens@.len() - old(self).pos, 14nat,
    {
        let mut left = self.parse_bitwise_xor()?;
        loop
            invariant
                moved_on(*old(self), *self),
                sexp_text(left) is Some,
                additive_chain(old(self).tokens@, old(self).pos as int) ==> self.pos == self.tokens@.len()
                    && left_additive(left, old(self).tokens@, old(self).pos as int, old(self).tokens@.len() - 1),
            decreases self.tokens@.len() - self.pos,
        {
            match self.peek() {
                Some(Tok::Pipe) => {},
                _ => break,
            }
            self.bump();
            let right = self.parse_bitwise_xor()?;
            left = binop("|", left, right);
        }
        Ok(left)
    }

    fn parse_bitwise_xor(&mut self) -> (r: Result<Node>)
        requires
            old(self).pos <= old(self).tokens@.len(),
        ensures
            moved_on(*old(self), *final(self)),
            r is Ok ==> sexp_text(r->Ok_0) is Some,
            additive_chain(old(self).tokens@, old(self).pos as int) ==> r is Ok
                && left_additive(r->Ok_0, old(self).tokens@, old(self).pos as int, old(self).tokens@.len() - 1)
                && final(self).pos == old(self).tokens@.len(),
        decreases old(self).tokens@.len() - old(self).pos, 13nat,
    {
        let mut left = self.parse_bitwise_and()?;
        loop
            invariant
                moved_on(*old(self), *self),
                sexp_text(left) is Some,
                additive_chain(old(self).tokens@, old(self).pos as int) ==> self.pos == self.tokens@.len()
                    && left_additive(left, old(self).tokens@, old(self).pos as int, old(self).tokens@.len() - 1),
            decreases self.tokens@.len() - self.pos,
        {
            match self.peek() {
                Some(Tok::Caret) => {},
                _ => break,
            }
            self.bump();
            let right = self.parse_bitwise_and()?;
            left = binop("^", left, right);
        }
        Ok(left)
    }

    fn parse_bitwise_and(&mut self) -> (r: Result<Node>)
        requires
            old(self).pos <= old(self).tokens@.len(),
        ensures
            moved_on(*old(self), *final(self)),
            r is Ok ==> sexp_text(r->Ok_0) is Some,
            additive_chain(old(self).tokens@, old(self).pos as int) ==> r is Ok
                && left_additive(r->Ok_0, old(self).tokens@, old(self).pos as int, old(self).tokens@.len() - 1)
                && final(self).pos == old(self).tokens@.len(),
        decreases old(self).tokens@.len() - old(self).pos, 12nat,
    {
        let mut left = self.parse_equality()?;
        loop
            invariant
                moved_on(*old(self), *self),
                sexp_text(left) is Some,
                additive_chain(old(self).tokens@, old(self).pos as int) ==> self.pos == self.tokens@.len()
                    && left_additive(left, old(self).tokens@, old(self).pos as int, old(self).tokens@.len() - 1),
            decreases self.tokens@.len() - self.pos,
        {
            match self.peek() {
                Some(Tok::Amp) => {},
                _ => break,
            }
            self.bump();
            let right = self.parse_equality()?;
            left = binop("&", left, right);
        }
        Ok(left)
    }

    fn parse_equality(&mut self) -> (r: Result<Node>)
        requires
            old(self).pos <= old(self).tokens@.len(),
        ensures
            moved_on(*old(self), *final(self)),
            r is Ok ==> sexp_text(r->Ok_0) is Some,
            additive_chain(old(self).tokens@, old(self).pos as int) ==> r is Ok
                && left_additive(r->Ok_0, old(self).tokens@, old(self).pos as int, old(self).tokens@.len() - 1)
                && final(self).pos == old(self).tokens@.len(),
        decreases old(self).tokens@.len() - old(self).pos, 11nat,
    {
        let mut left = self.parse_comparison()?;
        loop
            invariant
                moved_on(*old(self), *self),
                sexp_text(left) is Some,
                additive_chain(old(self).tokens@, old(self).pos as int) ==> self.pos == self.tokens@.len()
                    && left_additive(left, old(self).tokens@, old(self).pos as int, old(self).tokens@.len() - 1),
            decreases self.tokens@.len() - self.pos,
        {
            let op = match self.peek() {
                Some(Tok::EqEq) => "==",
                Some(Tok::Ne) => "!=",
                _ => break,
            };
            self.bump();
            let right = self.parse_comparison()?;
            left = binop(op, left, right);
        }
        Ok(left)
    }

    fn parse_comparison(&mut self) -> (r: Result<Node>)
        requires
            old(self).pos <= old(self).tokens@.len(),
        ensures
            moved_on(*old(self), *final(self)),
            r is Ok ==> sexp_text(r->Ok_0) is Some,
            additive_chain(old(self).tokens@, old(self).pos as int) ==> r is Ok
                && left_additive(r->Ok_0, old(self).tokens@, old(self).pos as int, old(self).tokens@.len() - 1)
                && final(self).pos == old(self).tokens@.len(),
        decreases old(self).tokens@.len() - old(self).pos, 10nat,
    {
        let mut left = self.parse_shift()?;
        loop
            invariant
                moved_on(*old(self), *self),
                sexp_text(left) is Some,
                additive_chain(old(self).tokens@, old(self).pos as int) ==> self.pos == self.tokens@.len()
                    && left_additive(left, old(self).tokens@, old(self).pos as int, old(self).tokens@.len() - 1),
            decreases self.tokens@.len() - self.pos,
        {
            let op = match self.peek() {
                Some(Tok::Lt) => "<",
                Some(Tok::Gt) => ">",
                Some(Tok::Le) => "<=",
                Some(Tok::Ge) => ">=",
                _ => break,
            };
            self.bump();
            let right = self.parse_shift()?;
            left = binop(op, left, right);
        }
        Ok(left)
    }

    fn parse_shift(&mut self) -> (r: Result<Node>)
        requires
            old(self).pos <= old(self).tokens@.len(),
        ensures
            moved_on(*old(self), *final(self)),
            r is Ok ==> sexp_text(r->Ok_0) is Some,
            additive_chain(old(self).tokens@, old(self).pos as int) ==> r is Ok
                && left_additive(r->Ok_0, old(self).tokens@, old(self).pos as int, old(self).tokens@.len() - 1)
                && final(self).pos == old(self).tokens@.len(),
        decreases old(self).tokens@.len() - old(self).pos, 9nat,
    {
        let mut left = self.parse_additive()?;
        loop
            invariant
                moved_on(*old(self), *self),
                sexp_text(left) is Some,
                additive_chain(old(self).tokens@, old(self).pos as int) ==> self.pos == self.tokens@.len()
                    && left_additive(left, old(self).tokens@, old(self).pos as int, old(self).tokens@.len() - 1),
            decreases self.tokens@.len() - self.pos,
        {
            let op = match self.peek() {
                Some(Tok::Shl) => "<<",
                Some(Tok::Shr) => ">>",
                _ => break,
            };
            self.bump();
            let right = self.parse_additive()?;
            left = binop(op, left, right);
        }
        Ok(left)
    }

    fn parse_additive(&mut self) -> (r: Result<Node>)
        requires
            old(self).pos <= old(self).tokens@.len(),
        ensures
            moved_on(*old(self), *final(self)),
            r is Ok ==> sexp_text(r->Ok_0) is Some,
            additive_chain(old(self).tokens@, old(self).pos as int) ==> r is Ok
                && left_additive(r->Ok_0, old(self).tokens@, old(self).pos as int, old(self).tokens@.len() - 1)
                && final(self).pos == old(self).tokens@.len(),
        decreases old(self).tokens@.len() - old(self).pos, 8nat,
    {
        let ghost t = old(self).tokens@;
        let ghost p0 = old(self).pos as int;
        let ghost chain = additive_chain(t, p0);
        let mut left = self.parse_multiplicative()?;
        let ghost mut k: int = p0;
        loop
            invariant
                moved_on(*old(self), *self),
                sexp_text(left) is Some,
                t == old(self).tokens@,
                p0 == old(self).pos,
                chain == additive_chain(t, p0),
                chain ==> p0 <= k && self.pos == k + 1 && additive_chain(t, k) && left_additive(left, t, p0, k),
            ensures
                moved_on(*old(self), *self),
                sexp_text(left) is Some,
                chain ==> self.pos == t.len() && left_additive(left, t, p0, t.len() - 1),
            decreases self.tokens@.len() - self.pos,
        {
            proof {
                if chain {
                    assert(operand_then(t, k));
                    if k + 1 < t.len() {
                        assert(additive_chain(t, k + 2));
                        assert(operand_then(t, k + 2));
                    }
                }
            }
            let op = match self.peek() {
                Some(Tok::Plus) => "+",
                Some(Tok::Minus) => "-",
                _ => break,
            };
            self.bump();
            let right = self.parse_multiplicative()?;
            let ghost prev = left;
            left = binop(op, left, right);
            proof {
                if chain {
                    assert(additive_chain(t, k + 2));
                    assert(left_additive(left, t, p0, k + 2)) by {
                        assert(left_additive(prev, t, p0, k));
                    }
                    k = k + 2;
                }
            }
        }
        Ok(left)
    }

    fn parse_multiplicative(&mut self) -> (r: Result<Node>)
        requires
            old(self).pos <= old(self).tokens@.len(),
        ensures
            moved_on(*old(self), *final(self)),
            r is Ok ==> sexp_text(r->Ok_0) is Some,
            operand_then(old(self).tokens@, old(self).pos as int) ==> r is Ok && operand_node_of(r->Ok_0, old(self).tokens@[old(self).pos as int])
                && final(self).pos == old(self).pos + 1,
        decreases old(self).tokens@.len() - old(self).pos, 7nat,
    {
        let mut left = self.parse_power()?;
        loop
            invariant
                moved_on(*old(self), *self),
                sexp_text(left) is Some,
                operand_then(old(self).tokens@, old(self).pos as int) ==> self.pos == old(self).pos + 1
                    && operand_node_of(left, old(self).tokens@[old(self).pos as int]),
            decreases self.tokens@.len() - self.pos,
        {
            let op = match self.peek() {
                Some(Tok::Star) => "*",
                Some(Tok::Slash) => "/",
                Some(Tok::Percent) => "%",
                _ => break,
            };
            self.bump();
            let right = self.parse_power()?;
            left = binop(op, left, right);
        }
        Ok(left)
    }

    fn parse_power(&mut self) -> (r: Result<Node>)
        requires
            old(self).pos <= old(self).tokens@.len(),
        ensures
            moved_on(*old(self), *final(self)),
            r is Ok ==> sexp_text(r->Ok_0) is Some,
            operand_then(old(self).tokens@, old(self).pos as int) ==> r is Ok && operand_node_of(r->Ok_0, old(self).tokens@[old(self).pos as int])
                && final(self).pos == old(self).pos + 1,
        decreases old(self).tokens@.len() - old(self).pos, 6nat,
    {
        let left = self.parse_unary()?;
        match self.peek() {
            Some(Tok::Power) => {
                self.bump();
                let right = self.parse_power()?;
                Ok(binop("**", left, right))
            }
            _ => Ok(left),
        }
    }

    fn parse_unary(&mut self) -> (r: Result<Node>)
        requires
            old(self).pos <= old(self).tokens@.len(),
        ensures
            moved_on(*old(self), *final(self)),
            r is Ok ==> sexp_text(r->Ok_0) is Some,
            operand_then(old(self).tokens@, old(self).pos as int) ==> r is Ok && operand_node_of(r->Ok_0, old(self).tokens@[old(self).pos as int])
                && final(self).pos == old(self).pos + 1,
        decreases old(self).tokens@.len() - old(self).pos, 5nat,
    {
        let op = match self.peek() {
            Some(Tok::Bang) => "!",
            Some(Tok::Tilde) => "~",
            Some(Tok::Minus) => "-",
            Some(Tok::Plus) => "+",
            _ => return self.parse_prefix(),
        };
        self.bump();
        let operand = self.parse_unary()?;
        Ok(unop(op, operand))
    }

    fn parse_prefix(&mut self) -> (r: Result<Node>)
        requires
            old(self).pos <= old(self).tokens@.len(),
        ensures
            moved_on(*old(self), *final(self)),
            r is Ok ==> sexp_text(r->Ok_0) is Some,
            operand_then(old(self).tokens@, old(self).pos as int) ==> r is Ok && operand_node_of(r->Ok_0, old(self).tokens@[old(self).pos as int])
                && final(self).pos == old(self).pos + 1,
        decreases old(self).tokens@.len() - old(self).pos, 4nat,
    {
        match self.peek() {
            Some(Tok::Inc) => {
                self.bump();
                let operand = self.parse_unary()?;
                Ok(mk(NodeKind::ArithPreIncr { operand: Box::new(operand) }))
            }
            Some(Tok::Dec) => {
                self.bump();
                let operand = self.parse_unary()?;
                Ok(mk(NodeKind::ArithPreDecr { operand: Box::new(operand) }))
            }
            _ => self.parse_postfix(),
        }
    }

    fn parse_postfix(&mut self) -> (r: Result<Node>)
        requires
            old(self).pos <= old(self).tokens@.len(),
        ensures
            moved_on(*old(self), *final(self)),
            r is Ok ==> sexp_text(r->Ok_0) is Some,
            operand_then(old(self).tokens@, old(self).pos as int) ==> r is Ok && operand_node_of(r->Ok_0, old(self).tokens@[old(self).pos as int])
                && final(self).pos == old(self).pos + 1,
        decreases old(self).tokens@.len() - old(self).pos, 3nat,
    {
        let prim = self.parse_primary()?;
        match self.peek() {
            Some(Tok::Inc) => {
                self.bump();
                Ok(mk(NodeKind::ArithPostIncr { operand: Box::new(prim) }))
            }
            Some(Tok::Dec) => {
                self.bump();
                Ok(mk(NodeKind::ArithPostDecr { operand: Box::new(prim) }))
            }
            _ => Ok(prim),
        }
    }

    fn parse_primary(&mut self) -> (r: Result<Node>)
        requires
            old(self).pos <= old(self).tokens@.len(),
        ensures
            moved_on(*old(self), *final(self)),
            r is Ok ==> sexp_text(r->Ok_0) is Some,
            r is Ok ==> final(self).pos > old(self).pos,
            operand_then(old(self).tokens@, old(self).pos as int) ==> r is Ok && operand_node_of(r->Ok_0, old(self).tokens@[old(self).pos as int])
                && final(self).pos == old(self).pos + 1,
        decreases old(self).tokens@.len() - old(self).pos, 2nat,
    {
        let (number, ident, lparen) = match self.peek() {
            None => return Err(err("unexpected end of arithmetic expression")),
            Some(Tok::Number(n)) => (Some(n.clone()), None, false),
            Some(Tok::Ident(name)) => (None, Some(name.clone()), false),
            Some(Tok::LParen) => (None, None, true),
            _ => return Err(err("unexpected token in arithmetic expression")),
        };
        self.bump();
        match number {
            Some(n) => return Ok(mk(NodeKind::ArithNumber { value: n })),
            None => {},
        }
        match ident {
            Some(name) => return self.maybe_subscript(name),
            None => {},
        }
        let inner = self.parse_expression()?;
        match self.peek() {
            Some(Tok::RParen) => {},
            _ => return Err(err("expected ')' in arithmetic expression")),
        }
        self.bump();
        Ok(inner)
    }

    fn maybe_subscript(&mut self, name: String) -> (r: Result<Node>)
        requires
            old(self).pos <= old(self).tokens@.len(),
        ensures
            moved_on(*old(self), *final(self)),
            r is Ok ==> sexp_text(r->Ok_0) is Some,
            old(self).pos == old(self).tokens@.len() || is_additive_tok(old(self).tokens@[old(self).pos as int]) ==> r is Ok
                && r->Ok_0.kind is ArithVar && r->Ok_0.kind->ArithVar_name == name && final(self).pos == old(self).pos,
        decreases old(self).tokens@.len() - old(self).pos, 1nat,
    {
        match self.peek() {
            Some(Tok::LBracket) => {},
            _ => return Ok(mk(NodeKind::ArithVar { name })),
        }
        self.bump();
        let index = self.parse_expression()?;
        match self.peek() {
            Some(Tok::RBracket) => {},
            _ => return Err(err("expected ']' in array subscript")),
        }
        self.bump();
        Ok(mk(NodeKind::ArithSubscript { array: name, index: Box::new(index) }))
    }
}

} // verus!
