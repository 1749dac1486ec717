//! `$var`, `${var}`, `${#var}`, `${!var}` and their operators.
use vstd::prelude::*;
use crate::ast::{Node, NodeKind};
use crate::text::{slice_chars, string_from_chars};
use super::literal_fallback;

verus! {

/// Parses `$var`: the name is everything after the `$`.
pub fn parse_simple_var(text: &[char]) -> (r: Node)
    ensures
        r.kind is ParamExpansion,
        text@.len() >= 1 ==> r.kind->ParamExpansion_param@ == text@.subrange(1, text@.len() as int),
        r.kind->ParamExpansion_op is None,
        r.kind->ParamExpansion_arg is None,
{
    let param = match slice_chars(text, 1, text.len()) {
        Some(p) => p,
        None => Vec::new(),
    };
    Node::empty(NodeKind::ParamExpansion { param: string_from_chars(param.as_slice()), op: None, arg: None })
}

/// Parses `${…}` into a length, indirect or plain parameter expansion.
pub fn parse_braced_param(text: &[char]) -> (r: Node)
    ensures
        r.kind is ParamExpansion || r.kind is ParamLength || r.kind is ParamIndirect || r.kind is WordLiteral,
        text@.len() <= 3 ==> r.kind is WordLiteral && r.kind->WordLiteral_value@ == text@,
{
    let n = text.len();
    let inner = if n >= 3 {
        match slice_chars(text, 2, n - 1) {
            Some(s) => s,
            None => return literal_fallback(text),
        }
    } else {
        return literal_fallback(text);
    };
    if inner.len() == 0 {
        return literal_fallback(text);
    }
    if inner[0] == '#' && inner.len() > 1 {
        let rest = match slice_chars(inner.as_slice(), 1, inner.len()) {
            Some(r) => r,
            None => Vec::new(),
        };
        let (param, _) = split_param_and_rest(rest.as_slice());
        return Node::empty(NodeKind::ParamLength { param: string_from_chars(param.as_slice()) });
    }
    if inner[0] == '!' && inner.len() > 1 {
        let rest = match slice_chars(inner.as_slice(), 1, inner.len()) {
            Some(r) => r,
            None => Vec::new(),
        };
        let (param, op, arg) = extract_param_op_arg(rest.as_slice());
        return Node::empty(NodeKind::ParamIndirect { param, op, arg });
    }
    let (param, op, arg) = extract_param_op_arg(inner.as_slice());
    Node::empty(NodeKind::ParamExpansion { param, op, arg })
}

/// The end of the run of decimal digits starting at `i`.
pub open spec fn digits_end(s: Seq<char>, i: int) -> int
    decreases s.len() - i,
{
    if 0 <= i < s.len() && '0' <= s[i] && s[i] <= '9' { digits_end(s, i + 1) } else { i }
}

/// A name ending at `e`, extended past a following `[...]` subscript.
pub open spec fn subscripted_end(s: Seq<char>, e: int) -> int {
    if 0 <= e < s.len() && s[e] == '[' && bracket_close(s, e, 0) is Some {
        bracket_close(s, e, 0)->0 + 1
    } else {
        e
    }
}

/// Length of the parameter name at the start of an expansion body: one
/// special character, a run of digits or an identifier (the last two with
/// an optional subscript), or the whole body when it starts otherwise.
pub open spec fn param_end(s: Seq<char>) -> int {
    if s.len() == 0 {
        0
    } else if s[0] == '@' || s[0] == '*' || s[0] == '?' || s[0] == '-' || s[0] == '$' || s[0] == '!' || s[0] == '#' {
        1
    } else if '0' <= s[0] && s[0] <= '9' {
        subscripted_end(s, digits_end(s, 1))
    } else if crate::lexer::words::is_name_start(s[0]) {
        subscripted_end(s, crate::lexer::words::name_run_end(s, 1))
    } else {
        s.len() as int
    }
}

/// What follows the parameter name.
pub open spec fn param_rest(s: Seq<char>) -> Seq<char> {
    s.subrange(param_end(s), s.len() as int)
}

/// Splits into parameter name, operator and argument: the name is
/// `param_end` characters long; the operator and argument are read from
/// the rest as `parse_op_and_arg` reads them.
pub fn extract_param_op_arg(s: &[char]) -> (r: (String, Option<String>, Option<String>))
    ensures
        0 <= param_end(s@) <= s@.len(),
        r.0@ == s@.subrange(0, param_end(s@)),
        param_rest(s@).len() == 0 ==> r.1 is None && r.2 is None,
        param_rest(s@).len() > 0 ==> (r.1 matches Some(o) && o@ == param_rest(s@).subrange(0, spec_op_len(param_rest(s@)))),
        param_rest(s@).len() > 0 && spec_op_len(param_rest(s@)) < param_rest(s@).len() ==> (r.2 matches Some(a)
            && a@ == param_rest(s@).subrange(spec_op_len(param_rest(s@)), param_rest(s@).len() as int)),
        spec_op_len(param_rest(s@)) == param_rest(s@).len() ==> r.2 is None,
{
    let (param, rest) = split_param_and_rest(s);
    let (op, arg) = parse_op_and_arg(rest.as_slice());
    (string_from_chars(param.as_slice()), op, arg)
}

/// Splits a parameter name (special character, digits or identifier, with
/// an optional subscript) from the rest.
pub fn split_param_and_rest(s: &[char]) -> (r: (Vec<char>, Vec<char>))
    ensures
        r.0@ + r.1@ == s@,
        0 <= param_end(s@) <= s@.len(),
        r.0@ == s@.subrange(0, param_end(s@)),
        r.1@ == param_rest(s@),
{
    let n = s.len();
    if n == 0 {
        return (Vec::new(), Vec::new());
    }
    let c = s[0];
    if c == '@' || c == '*' || c == '?' || c == '-' || c == '$' || c == '!' || c == '#' {
        return split_at(s, 1);
    }
    if '0' <= c && c <= '9' {
        let mut end: usize = 1;
        while end < n && '0' <= s[end] && s[end] <= '9'
            invariant
                1 <= end <= n,
                n == s@.len(),
                digits_end(s@, end as int) == digits_end(s@, 1),
            decreases n - end,
        {
            end = end + 1;
        }
        return maybe_with_subscript(s, end);
    }
    if ('a' <= c && c <= 'z') || ('A' <= c && c <= 'Z') || c == '_' {
        let mut end: usize = 1;
        while end < n && crate::lexer::words::name_char(s[end])
            invariant
                1 <= end <= n,
                n == s@.len(),
                crate::lexer::words::name_run_end(s@, end as int) == crate::lexer::words::name_run_end(s@, 1),
            decreases n - end,
        {
            end = end + 1;
        }
        return maybe_with_subscript(s, end);
    }
    split_at(s, n)
}

/// `(s[..k], s[k..])`.
pub fn split_at(s: &[char], k: usize) -> (r: (Vec<char>, Vec<char>))
    requires
        k <= s@.len(),
    ensures
        r.0@ == s@.subrange(0, k as int),
        r.1@ == s@.subrange(k as int, s@.len() as int),
        r.0@ + r.1@ == s@,
{
    let a = match slice_chars(s, 0, k) { Some(v) => v, None => Vec::new() };
    let b = match slice_chars(s, k, s.len()) { Some(v) => v, None => Vec::new() };
    assert(a@ + b@ =~= s@);
    (a, b)
}

/// Extends the name ending at `name_end` with a following `[...]` subscript.
pub fn maybe_with_subscript(s: &[char], name_end: usize) -> (r: (Vec<char>, Vec<char>))
    requires
        name_end <= s@.len(),
    ensures
        r.0@ + r.1@ == s@,
        name_end <= subscripted_end(s@, name_end as int) <= s@.len(),
        r.0@ == s@.subrange(0, subscripted_end(s@, name_end as int)),
        r.1@ == s@.subrange(subscripted_end(s@, name_end as int), s@.len() as int),
{
    if name_end < s.len() && s[name_end] == '[' {
        match find_matching_bracket(s, name_end) {
            Some(close) => {
                return split_at(s, close + 1);
            }
            None => {},
        }
    }
    split_at(s, name_end)
}

/// Scanning from `i` with bracket depth `d`: the first `]` that brings the
/// depth to zero (depths kept within `i64`).
pub open spec fn bracket_close(s: Seq<char>, i: int, d: int) -> Option<int>
    decreases s.len() - i,
{
    if i < 0 || i >= s.len() {
        None
    } else if s[i] == '[' {
        bracket_close(s, i + 1, if d < i64::MAX { d + 1 } else { d })
    } else if s[i] == ']' {
        let d2 = if d > i64::MIN { d - 1 } else { d };
        if d2 == 0 { Some(i) } else { bracket_close(s, i + 1, d2) }
    } else {
        bracket_close(s, i + 1, d)
    }
}

/// The index of the `]` matching the `[` at `open`.
pub fn find_matching_bracket(s: &[char], open: usize) -> (r: Option<usize>)
    requires
        open <= s@.len(),
    ensures
        r is Some ==> open <= r->0 < s@.len() && s@[r->0 as int] == ']',
        r is Some <==> bracket_close(s@, open as int, 0) is Some,
        r is Some ==> r->0 == bracket_close(s@, open as int, 0)->0,
{
    let mut depth: i64 = 0;
    let mut i = open;
    while i < s.len()
        invariant
            open <= i <= s@.len(),
            bracket_close(s@, i as int, depth as int) == bracket_close(s@, open as int, 0),
        decreases s.len() - i,
    {
        let c = s[i];
        if c == '[' {
            if depth < i64::MAX {
                depth = depth + 1;
            }
        } else if c == ']' {
            if depth > i64::MIN {
                depth = depth - 1;
            }
            if depth == 0 {
                return Some(i);
            }
        }
        i = i + 1;
    }
    None
}

/// Length of the expansion operator at the start of `s`, taking the
/// longest known operator (`:-`, `:=`, `:+`, `:?`, `-`, `=`, `+`, `?`,
/// `##`, `#`, `%%`, `%`, `//`, `/#`, `/%`, `/`, `^^`, `^`, `,,`, `,`, `@`,
/// `:`); the whole of `s` when none matches.
pub open spec fn spec_op_len(s: Seq<char>) -> int {
    if s.len() == 0 {
        0
    } else {
        let c = s[0];
        let second = if s.len() >= 2 { Some(s[1]) } else { None };
        if c == ':' {
            if second == Some('-') || second == Some('=') || second == Some('+') || second == Some('?') { 2 } else { 1 }
        } else if c == '-' || c == '=' || c == '+' || c == '?' || c == '@' {
            1
        } else if c == '#' || c == '%' || c == '^' || c == ',' {
            if second == Some(c) { 2 } else { 1 }
        } else if c == '/' {
            if second == Some('/') || second == Some('#') || second == Some('%') { 2 } else { 1 }
        } else {
            s.len() as int
        }
    }
}

/// Computes `spec_op_len`.
pub fn op_len(s: &[char]) -> (r: usize)
    ensures
        r == spec_op_len(s@),
{
    let n = s.len();
    if n == 0 {
        return 0;
    }
    let c = s[0];
    let second = if n >= 2 { Some(s[1]) } else { None };
    if c == ':' {
        if second == Some('-') || second == Some('=') || second == Some('+') || second == Some('?') { 2 } else { 1 }
    } else if c == '-' || c == '=' || c == '+' || c == '?' || c == '@' {
        1
    } else if c == '#' || c == '%' || c == '^' || c == ',' {
        if second == Some(c) { 2 } else { 1 }
    } else if c == '/' {
        if second == Some('/') || second == Some('#') || second == Some('%') { 2 } else { 1 }
    } else {
        n
    }
}

/// Extracts operator and argument from what follows the parameter name:
/// the operator is `spec_op_len` characters long, the argument is the rest
/// (`None` when empty).
pub fn parse_op_and_arg(s: &[char]) -> (r: (Option<String>, Option<String>))
    ensures
        s@.len() == 0 ==> r.0 is None && r.1 is None,
        s@.len() > 0 ==> (r.0 matches Some(o) && o@ == s@.subrange(0, spec_op_len(s@))),
        s@.len() > 0 && spec_op_len(s@) < s@.len() ==> (r.1 matches Some(a) && a@ == s@.subrange(spec_op_len(s@), s@.len() as int)),
        spec_op_len(s@) == s@.len() ==> r.1 is None,
{
    if s.len() == 0 {
        return (None, None);
    }
    let n = op_len(s);
    let op = match slice_chars(s, 0, n) {
        Some(o) => o,
        None => Vec::new(),
    };
    let arg_opt = if n < s.len() {
        match slice_chars(s, n, s.len()) {
            Some(a) => Some(string_from_chars(a.as_slice())),
            None => None,
        }
    } else {
        None
    };
    (Some(string_from_chars(op.as_slice())), arg_opt)
}

} // verus!
