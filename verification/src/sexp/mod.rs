//! S-expression rendering of syntax trees.
use vstd::prelude::*;
use crate::text::{skip_ws_backward, skip_ws_forward, trim};

pub mod ansi_c;
pub mod model;
pub mod nodes;
pub mod segments;
pub mod word;

verus! {

/// How many nested reformattings of `$(...)` bodies one rendering allows.
pub const REFORMAT_BUDGET: usize = 2;

/// The S-expression form of one character inside a quoted string.
pub open spec fn escape_char_spec(c: char) -> Seq<char> {
    if c == '"' {
        seq!['\\', '"']
    } else if c == '\\' {
        seq!['\\', '\\']
    } else if c == '\n' {
        seq!['\\', 'n']
    } else if c == '\t' {
        seq!['\\', 't']
    } else {
        seq![c]
    }
}

/// A string escaped for S-expression output, character by character.
pub open spec fn escaped(s: Seq<char>) -> Seq<char>
    decreases s.len(),
{
    if s.len() == 0 {
        Seq::empty()
    } else {
        escaped(s.drop_last()) + escape_char_spec(s.last())
    }
}

/// Appends one character with S-expression escaping.
pub fn write_escaped_char(out: &mut Vec<char>, c: char)
    ensures
        final(out)@ == old(out)@ + escape_char_spec(c),
{
    if c == '"' {
        out.push('\\');
        out.push('"');
    } else if c == '\\' {
        out.push('\\');
        out.push('\\');
    } else if c == '\n' {
        out.push('\\');
        out.push('n');
    } else if c == '\t' {
        out.push('\\');
        out.push('t');
    } else {
        out.push(c);
    }
    assert(out@ =~= old(out)@ + escape_char_spec(c));
}

/// Appends a string with S-expression escaping.
pub fn write_escaped_word(out: &mut Vec<char>, s: &[char])
    ensures
        final(out)@ == old(out)@ + escaped(s@),
{
    let mut i: usize = 0;
    while i < s.len()
        invariant
            i <= s@.len(),
            out@ == old(out)@ + escaped(s@.subrange(0, i as int)),
        decreases s.len() - i,
    {
        let ghost before = out@;
        write_escaped_char(out, s[i]);
        assert(s@.subrange(0, i + 1).drop_last() =~= s@.subrange(0, i as int));
        assert(out@ =~= old(out)@ + escaped(s@.subrange(0, i + 1)));
        i = i + 1;
    }
    assert(s@.subrange(0, s@.len() as int) =~= s@);
}

/// A command substitution body as printed when it cannot be reformatted:
/// trimmed, one trailing `;` removed (and the blanks before it), and
/// `<file` written as `< file`.
pub open spec fn normalized_cmdsub(s: Seq<char>) -> Seq<char> {
    let t = trim(s);
    let st = if t.len() > 0 && t.last() == ';' { crate::text::trim_end(t.drop_last()) } else { t };
    if st.len() > 0 && st[0] == '<' && !(st.len() > 1 && (st[1] == '<' || st[1] == ' ')) {
        seq!['<', ' '] + st.drop_first()
    } else {
        st
    }
}

/// Computes `normalized_cmdsub`.
pub fn normalize_cmdsub_content(content: &[char]) -> (r: Vec<char>)
    ensures
        r@ == normalized_cmdsub(content@),
{
    let n = content.len();
    let a = skip_ws_forward(content, 0, n);
    let e = skip_ws_backward(content, a, n);
    proof {
        assert(content@.subrange(0, n as int) =~= content@);
        assert(trim(content@) == content@.subrange(a as int, e as int));
    }
    let mut end = e;
    if e > a && content[e - 1] == ';' {
        end = skip_ws_backward(content, a, e - 1);
        proof {
            let t = content@.subrange(a as int, e as int);
            assert(t.drop_last() =~= content@.subrange(a as int, e - 1));
        }
    }
    let ghost st = content@.subrange(a as int, end as int);
    assert(st == (if trim(content@).len() > 0 && trim(content@).last() == ';' {
        crate::text::trim_end(trim(content@).drop_last())
    } else {
        trim(content@)
    }));
    let mut r: Vec<char> = Vec::new();
    if end > a && content[a] == '<' && !(end > a + 1 && (content[a + 1] == '<' || content[a + 1] == ' ')) {
        r.push('<');
        r.push(' ');
        let mut i = a + 1;
        while i < end
            invariant
                a + 1 <= i <= end <= content@.len(),
                r@ == seq!['<', ' '] + content@.subrange(a + 1, i as int),
            decreases end - i,
        {
            r.push(content[i]);
            i = i + 1;
        }
        assert(st.drop_first() =~= content@.subrange(a + 1, end as int));
    } else {
        let mut i = a;
        while i < end
            invariant
                a <= i <= end <= content@.len(),
                r@ == content@.subrange(a as int, i as int),
            decreases end - i,
        {
            r.push(content[i]);
            i = i + 1;
        }
    }
    r
}

/// The text of `$'...'` after escape processing, for a raw body.
pub fn ansi_c_processed(raw: &[char]) -> (r: Vec<char>)
    ensures
        r@ == ansi_c::ansi_processed(raw@, 0).0,
{
    let mut pos: usize = 0;
    ansi_c::process_ansi_c_content(raw, &mut pos)
}

/// The S-expression form of a parameter expansion: `${` + prefix-less
/// parameter, operator and argument + `}` when there is an operator or an
/// argument, `$param` otherwise. `prefix` is `${`, `${!`.
pub open spec fn param_text(prefix: Seq<char>, param: Seq<char>, op: Option<Seq<char>>, arg: Option<Seq<char>>) -> Seq<char> {
    if op is Some || arg is Some {
        prefix + param
            + (match op { Some(o) => o, None => Seq::empty() })
            + (match arg { Some(a) => a, None => Seq::empty() })
            + seq!['}']
    } else {
        seq!['$'] + param
    }
}

} // verus!

verus! {

/// Text without `"`, `\`, newlines and tabs is written as it stands.
pub proof fn lemma_escaped_plain(s: Seq<char>)
    requires
        forall|i: int| 0 <= i < s.len() ==> {
            let c = #[trigger] s[i];
            c != '"' && c != '\\' && c != '\n' && c != '\t'
        },
    ensures
        escaped(s) == s,
    decreases s.len(),
{
    if s.len() > 0 {
        let t = s.drop_last();
        assert forall|i: int| 0 <= i < t.len() implies {
            let c = #[trigger] t[i];
            c != '"' && c != '\\' && c != '\n' && c != '\t'
        } by {
            assert(t[i] == s[i]);
        }
        lemma_escaped_plain(t);
        let c = s.last();
        assert(c == s[s.len() - 1]);
        assert(escape_char_spec(c) == seq![c]);
        assert(s =~= t + seq![c]);
    }
}

/// Escaping writes every character as itself or as a backslash pair, so
/// the escaped text is never shorter than the text.
pub proof fn lemma_escaped_len(s: Seq<char>)
    ensures
        escaped(s).len() >= s.len(),
    decreases s.len(),
{
    if s.len() > 0 {
        lemma_escaped_len(s.drop_last());
    }
}

} // verus!
