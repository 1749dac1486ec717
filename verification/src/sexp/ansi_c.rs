//! ANSI-C quoting (`$'…'`) escape processing used when printing words.
use vstd::prelude::*;
use crate::parser::word_parts::ansi_c::{lemma_run_len, run_len, run_value};
use crate::text::{char_from_u32, digit_value, hex_value};

verus! {

/// The one-letter escapes of the printer: `\n \t \r \a \b \f \v \e \E \\ \"`.
pub open spec fn sexp_simple_escape(esc: char) -> Option<char> {
    if esc == 'n' { Some('\n') }
    else if esc == 't' { Some('\t') }
    else if esc == 'r' { Some('\r') }
    else if esc == 'a' { Some('\u{07}') }
    else if esc == 'b' { Some('\u{08}') }
    else if esc == 'f' { Some('\u{0C}') }
    else if esc == 'v' { Some('\u{0B}') }
    else if esc == 'e' || esc == 'E' { Some('\u{1B}') }
    else if esc == '\\' { Some('\\') }
    else if esc == '"' { Some('"') }
    else { None }
}

/// The printer reads each one-letter escape as the decoder of word parts
/// does, and `\e`, `\E` as the escape character U+001B.
pub proof fn lemma_printer_escapes_agree(esc: char, s: Seq<char>, q: int)
    ensures
        sexp_simple_escape(esc) is Some ==> sexp_simple_escape(esc)
            == crate::parser::word_parts::ansi_c::spec_simple_escape(esc),
        1 <= q <= s.len() && (s[q - 1] == 'e' || s[q - 1] == 'E')
            ==> escape_step(s, q) == (seq!['\u{1B}'], q, false),
{
}

/// `ch`, with `\x01` before it when it is `\x01` or `\x7F` (bash's own
/// escape byte).
pub open spec fn ctlesc(ch: char) -> Seq<char> {
    if ch == '\u{01}' || ch == '\u{7F}' {
        seq!['\u{01}', ch]
    } else {
        seq![ch]
    }
}

/// The position just past the next `'` at or after `p`, or the end.
pub open spec fn skip_quote(s: Seq<char>, p: int) -> int
    decreases s.len() - p,
{
    if p >= s.len() {
        s.len() as int
    } else if p >= 0 && s[p] == '\'' {
        p + 1
    } else {
        skip_quote(s, p + 1)
    }
}

/// One escape whose letter stands at `q - 1`: the text it writes, where
/// reading goes on, and whether a NUL value ended the string.
pub open spec fn escape_step(s: Seq<char>, q: int) -> (Seq<char>, int, bool) {
    let esc = s[q - 1];
    match sexp_simple_escape(esc) {
        Some(ch) => (seq![ch], q, false),
        None => {
            if esc == 'c' {
                if q >= s.len() {
                    (seq!['\\', 'c'], q, false)
                } else {
                    let v = (s[q] as u32) & 0x1F;
                    (if v > 0 { seq![v as char] } else { Seq::empty() }, q + 1, false)
                }
            } else if esc == '\'' {
                (seq!['\'', '\\', '\'', '\''], q, false)
            } else if esc == 'x' {
                let n = run_len(s, q, 16, 2);
                let v = run_value(s, q, 16, n);
                if n == 0 {
                    (seq!['\\', 'x'], q, false)
                } else if v == 0 {
                    (Seq::empty(), skip_quote(s, q + n), true)
                } else if v > 0x7F {
                    (seq!['\u{FFFD}'], q + n, false)
                } else {
                    (ctlesc((v as u32) as char), q + n, false)
                }
            } else if esc == 'u' || esc == 'U' {
                let w: nat = if esc == 'u' { 4 } else { 8 };
                let n = run_len(s, q, 16, w);
                let v = run_value(s, q, 16, n);
                if n == 0 {
                    (seq!['\\', esc], q, false)
                } else if v == 0 {
                    (Seq::empty(), skip_quote(s, q + n), true)
                } else if v <= 0x10FFFF && !(0xD800 <= v && v <= 0xDFFF) {
                    (seq![(v as u32) as char], q + n, false)
                } else {
                    (Seq::empty(), q + n, false)
                }
            } else if '0' <= esc && esc <= '7' {
                let n = run_len(s, q - 1, 8, 3);
                let v = run_value(s, q - 1, 8, n);
                if v == 0 {
                    (Seq::empty(), skip_quote(s, q - 1 + n), true)
                } else {
                    (ctlesc((v as u32) as char), q - 1 + n, false)
                }
            } else {
                (seq!['\\', esc], q, false)
            }
        },
    }
}

/// The processed text of a `$'...'` body read from `p` up to its closing
/// `'` (or the end, or a NUL escape), and the position reading stops at.
pub open spec fn ansi_processed(s: Seq<char>, p: int) -> (Seq<char>, int)
    decreases s.len() - p,
{
    if p < 0 || p >= s.len() {
        (Seq::empty(), p)
    } else if s[p] == '\'' {
        (Seq::empty(), p + 1)
    } else if s[p] != '\\' || p + 1 >= s.len() {
        let rest = ansi_processed(s, p + 1);
        (seq![s[p]] + rest.0, rest.1)
    } else {
        let step = escape_step(s, p + 2);
        if step.2 {
            (step.0, step.1)
        } else {
            let j = if step.1 <= p { p + 1 } else if step.1 > s.len() { s.len() as int } else { step.1 };
            let rest = ansi_processed(s, j);
            (step.0 + rest.0, rest.1)
        }
    }
}

/// Processes the escapes of a `$'...'` body starting at `*pos` (just after
/// `$'`), up to and past the closing `'`. Returns the processed content
/// without the quotes.
pub fn process_ansi_c_content(chars: &[char], pos: &mut usize) -> (r: Vec<char>)
    ensures
        *old(pos) <= *final(pos),
        *old(pos) <= chars@.len() ==> *final(pos) <= chars@.len(),
        *old(pos) > chars@.len() ==> r@.len() == 0 && *final(pos) == *old(pos),
        (r@, *final(pos) as int) == ansi_processed(chars@, *old(pos) as int),
{
    let mut out: Vec<char> = Vec::new();
    if *pos > chars.len() {
        return out;
    }
    while *pos < chars.len()
        invariant
            *old(pos) <= *pos <= chars@.len(),
            (out@ + ansi_processed(chars@, *pos as int).0, ansi_processed(chars@, *pos as int).1)
                == ansi_processed(chars@, *old(pos) as int),
        decreases chars.len() - *pos,
    {
        let ghost p = *pos as int;
        let c = chars[*pos];
        if c == '\'' {
            *pos = *pos + 1;
            assert(out@ + Seq::<char>::empty() =~= out@);
            return out;
        }
        if c != '\\' || *pos + 1 >= chars.len() {
            let ghost before = out@;
            out.push(c);
            *pos = *pos + 1;
            assert(out@ + ansi_processed(chars@, *pos as int).0 =~= before + (seq![c] + ansi_processed(chars@, *pos as int).0));
            continue;
        }
        *pos = *pos + 1;
        let esc = chars[*pos];
        *pos = *pos + 1;
        let ghost before = out@;
        let stop = handle_escape(chars, pos, esc, &mut out);
        if stop {
            assert(out@ + Seq::<char>::empty() =~= out@);
            return out;
        }
        assert(before + (escape_step(chars@, p + 2).0 + ansi_processed(chars@, *pos as int).0)
            =~= out@ + ansi_processed(chars@, *pos as int).0);
    }
    assert(out@ + Seq::<char>::empty() =~= out@);
    out
}

/// Handles one escape whose letter `esc` was just read; true when a NUL
/// escape ended the string.
fn handle_escape(chars: &[char], pos: &mut usize, esc: char, out: &mut Vec<char>) -> (r: bool)
    requires
        2 <= *old(pos) <= chars@.len(),
        chars@[*old(pos) - 1] == esc,
    ensures
        *old(pos) <= *final(pos) <= chars@.len(),
        final(out)@ == old(out)@ + escape_step(chars@, *old(pos) as int).0,
        *final(pos) == escape_step(chars@, *old(pos) as int).1,
        r == escape_step(chars@, *old(pos) as int).2,
{
    match simple_escape(esc) {
        Some(ch) => {
            out.push(ch);
            return false;
        }
        None => {},
    }
    if esc == 'c' {
        handle_control(chars, pos, out);
    } else if esc == '\'' {
        out.push('\'');
        out.push('\\');
        out.push('\'');
        out.push('\'');
        assert(out@ =~= old(out)@ + seq!['\'', '\\', '\'', '\'']);
    } else if esc == 'x' {
        return handle_hex(chars, pos, out);
    } else if esc == 'u' {
        return handle_unicode(chars, pos, out, 4);
    } else if esc == 'U' {
        return handle_unicode(chars, pos, out, 8);
    } else if '0' <= esc && esc <= '7' {
        return handle_octal(chars, pos, esc, out);
    } else {
        out.push('\\');
        out.push(esc);
        assert(out@ =~= old(out)@ + seq!['\\', esc]);
    }
    false
}

/// Single-character escapes: `\n \t \r \a \b \f \v \e \E \\ \"`.
pub fn simple_escape(esc: char) -> (r: Option<char>)
    ensures
        r == sexp_simple_escape(esc),
{
    match esc {
        'n' => Some('\n'),
        't' => Some('\t'),
        'r' => Some('\r'),
        'a' => Some('\u{07}'),
        'b' => Some('\u{08}'),
        'f' => Some('\u{0C}'),
        'v' => Some('\u{0B}'),
        'e' => Some('\u{1B}'),
        'E' => Some('\u{1B}'),
        '\\' => Some('\\'),
        '"' => Some('"'),
        _ => None,
    }
}

/// `\xHH`: up to two hex digits.
fn handle_hex(chars: &[char], pos: &mut usize, out: &mut Vec<char>) -> (r: bool)
    requires
        1 <= *old(pos) <= chars@.len(),
        chars@[*old(pos) - 1] == 'x',
    ensures
        *old(pos) <= *final(pos) <= chars@.len(),
        final(out)@ == old(out)@ + escape_step(chars@, *old(pos) as int).0,
        *final(pos) == escape_step(chars@, *old(pos) as int).1,
        r == escape_step(chars@, *old(pos) as int).2,
{
    let before = *pos;
    let hex = read_hex(chars, pos, 2);
    if *pos == before {
        out.push('\\');
        out.push('x');
        assert(out@ =~= old(out)@ + seq!['\\', 'x']);
        return false;
    }
    if hex == 0 {
        skip_to_closing_quote(chars, pos);
        assert(out@ =~= old(out)@ + Seq::<char>::empty());
        return true;
    }
    if hex > 0x7F {
        out.push('\u{FFFD}');
    } else {
        match char_from_u32(hex) {
            Some(ch) => {
                proof { vstd::utf8::char_u32_cast(ch, hex); }
                push_with_ctlesc(out, ch);
            }
            None => {},
        }
    }
    false
}

/// `\uHHHH` (width 4) or `\UHHHHHHHH` (width 8).
fn handle_unicode(chars: &[char], pos: &mut usize, out: &mut Vec<char>, width: usize) -> (r: bool)
    requires
        1 <= *old(pos) <= chars@.len(),
        width == 4 || width == 8,
        width == 4 ==> chars@[*old(pos) - 1] == 'u',
        width == 8 ==> chars@[*old(pos) - 1] == 'U',
    ensures
        *old(pos) <= *final(pos) <= chars@.len(),
        final(out)@ == old(out)@ + escape_step(chars@, *old(pos) as int).0,
        *final(pos) == escape_step(chars@, *old(pos) as int).1,
        r == escape_step(chars@, *old(pos) as int).2,
{
    let before = *pos;
    let val = read_hex(chars, pos, width);
    if *pos == before {
        out.push('\\');
        out.push(if width == 4 { 'u' } else { 'U' });
        assert(out@ =~= old(out)@ + escape_step(chars@, *old(pos) as int).0);
        return false;
    }
    if val == 0 {
        skip_to_closing_quote(chars, pos);
        assert(out@ =~= old(out)@ + Seq::<char>::empty());
        return true;
    }
    match char_from_u32(val) {
        Some(ch) => {
            proof { vstd::utf8::char_u32_cast(ch, val); }
            out.push(ch);
        }
        None => {
            assert(out@ =~= old(out)@ + Seq::<char>::empty());
        }
    }
    false
}

/// `\0`–`\7` and up to two more octal digits.
fn handle_octal(chars: &[char], pos: &mut usize, first: char, out: &mut Vec<char>) -> (r: bool)
    requires
        1 <= *old(pos) <= chars@.len(),
        '0' <= first <= '7',
        chars@[*old(pos) - 1] == first,
    ensures
        *old(pos) <= *final(pos) <= chars@.len(),
        final(out)@ == old(out)@ + escape_step(chars@, *old(pos) as int).0,
        *final(pos) == escape_step(chars@, *old(pos) as int).1,
        r == escape_step(chars@, *old(pos) as int).2,
{
    let ghost start = *old(pos) - 1;
    let mut val: u32 = (first as u32) - ('0' as u32);
    let mut k: usize = 0;
    let mut stopped = false;
    assert(run_value(chars@, start, 8, 1) == val) by {
        reveal_with_fuel(run_value, 2);
        assert(chars@[start] == first);
    }
    while k < 2
        invariant
            *old(pos) <= *pos <= chars@.len(),
            *pos == start + 1 + k - (if stopped { 0int } else { 0int }) || stopped,
            k <= 2,
            start + 1 <= *pos,
            !stopped ==> *pos == start + 1 + k,
            stopped ==> (*pos >= chars@.len() || digit_value(chars@[*pos as int], 8) is None),
            val == run_value(chars@, start, 8, (*pos - start) as nat),
            forall|j: int| 0 <= j < *pos - start ==> start + j < chars@.len() && #[trigger] digit_value(chars@[start + j], 8) is Some,
            *pos - start <= 3,
            val < 512,
            *pos - start == 1 ==> val < 8,
            *pos - start == 2 ==> val < 64,
            start == *old(pos) - 1,
        decreases 2 - k,
    {
        if *pos < chars.len() && chars[*pos] >= '0' && chars[*pos] <= '7' && !stopped {
            val = val * 8 + ((chars[*pos] as u32) - ('0' as u32));
            *pos = *pos + 1;
        } else {
            stopped = true;
        }
        k = k + 1;
    }
    proof {
        lemma_run_len(chars@, start, 8, 3, (*pos - start) as nat);
    }
    if val == 0 {
        skip_to_closing_quote(chars, pos);
        assert(out@ =~= old(out)@ + Seq::<char>::empty());
        return true;
    }
    match char_from_u32(val) {
        Some(ch) => {
            proof { vstd::utf8::char_u32_cast(ch, val); }
            push_with_ctlesc(out, ch);
        }
        None => {},
    }
    false
}

/// `\cX`: the control character `X & 0x1F`; nothing for `\c@`.
fn handle_control(chars: &[char], pos: &mut usize, out: &mut Vec<char>)
    requires
        1 <= *old(pos) <= chars@.len(),
        chars@[*old(pos) - 1] == 'c',
    ensures
        *old(pos) <= *final(pos) <= chars@.len(),
        final(out)@ == old(out)@ + escape_step(chars@, *old(pos) as int).0,
        *final(pos) == escape_step(chars@, *old(pos) as int).1,
        !escape_step(chars@, *old(pos) as int).2,
{
    if *pos >= chars.len() {
        out.push('\\');
        out.push('c');
        assert(out@ =~= old(out)@ + seq!['\\', 'c']);
        return;
    }
    let ctrl = chars[*pos];
    *pos = *pos + 1;
    let cu = ctrl as u32;
    let val = cu & 0x1F;
    assert(val <= 0x1F) by (bit_vector)
        requires
            val == cu & 0x1F;
    if val > 0 {
        match char_from_u32(val) {
            Some(ch) => {
                proof { vstd::utf8::char_u32_cast(ch, val); }
                out.push(ch);
            }
            None => {},
        }
    } else {
        assert(out@ =~= old(out)@ + Seq::<char>::empty());
    }
}

/// Pushes `ch`, prefixed by `\x01` when it is `\x01` or `\x7F`.
fn push_with_ctlesc(out: &mut Vec<char>, ch: char)
    ensures
        final(out)@ == old(out)@ + ctlesc(ch),
{
    if ch == '\u{01}' || ch == '\u{7F}' {
        out.push('\u{01}');
    }
    out.push(ch);
    assert(out@ =~= old(out)@ + ctlesc(ch));
}

/// Reads up to `max` hex digits at `*pos`: their number and value.
fn read_hex(chars: &[char], pos: &mut usize, max: usize) -> (r: u32)
    requires
        *old(pos) <= chars@.len(),
        max <= 8,
    ensures
        *old(pos) <= *final(pos) <= chars@.len(),
        *final(pos) - *old(pos) == run_len(chars@, *old(pos) as int, 16, max as nat),
        r == run_value(chars@, *old(pos) as int, 16, (*final(pos) - *old(pos)) as nat),
{
    let ghost start = *old(pos) as int;
    let mut val: u32 = 0;
    let mut k: usize = 0;
    let mut stopped = false;
    while k < max && !stopped
        invariant
            *old(pos) <= *pos <= chars@.len(),
            *pos - *old(pos) == k,
            k <= max <= 8,
            start == *old(pos),
            val == run_value(chars@, start, 16, k as nat),
            forall|j: int| 0 <= j < k ==> start + j < chars@.len() && #[trigger] digit_value(chars@[start + j], 16) is Some,
            stopped ==> (*pos >= chars@.len() || digit_value(chars@[*pos as int], 16) is None),
            k == 0 ==> val < 0x1,
            k == 1 ==> val < 0x10,
            k == 2 ==> val < 0x100,
            k == 3 ==> val < 0x1000,
            k == 4 ==> val < 0x10000,
            k == 5 ==> val < 0x100000,
            k == 6 ==> val < 0x1000000,
            k == 7 ==> val < 0x10000000,
        decreases max - k, if stopped { 0int } else { 1int },
    {
        if *pos >= chars.len() {
            stopped = true;
        } else {
            match hex_value(chars[*pos]) {
                Some(d) => {
                    val = val * 16 + d;
                    *pos = *pos + 1;
                    k = k + 1;
                }
                None => {
                    stopped = true;
                }
            }
        }
    }
    proof {
        lemma_run_len(chars@, start, 16, max as nat, k as nat);
    }
    val
}

/// Advances `*pos` just past the next `'`, or to the end.
fn skip_to_closing_quote(chars: &[char], pos: &mut usize)
    requires
        *old(pos) <= chars@.len(),
    ensures
        *old(pos) <= *final(pos) <= chars@.len(),
        *final(pos) == skip_quote(chars@, *old(pos) as int),
{
    while *pos < chars.len() && chars[*pos] != '\''
        invariant
            *old(pos) <= *pos <= chars@.len(),
            skip_quote(chars@, *pos as int) == skip_quote(chars@, *old(pos) as int),
        decreases chars.len() - *pos,
    {
        *pos = *pos + 1;
    }
    if *pos < chars.len() {
        *pos = *pos + 1;
    }
}

} // verus!

verus! {

/// A body without backslashes is written as it stands up to its closing
/// quote, and reading stops just past that quote.
pub proof fn lemma_processed_plain(s: Seq<char>, p: int, q: int)
    requires
        0 <= p <= q < s.len(),
        s[q] == '\'',
        forall|k: int| p <= k < q ==> #[trigger] s[k] != '\\' && s[k] != '\'',
    ensures
        ansi_processed(s, p) == (s.subrange(p, q), q + 1),
    decreases q - p,
{
    if p < q {
        lemma_processed_plain(s, p + 1, q);
        assert(s.subrange(p, q) =~= seq![s[p]] + s.subrange(p + 1, q));
    } else {
        assert(s.subrange(p, q) =~= Seq::<char>::empty());
    }
}

} // verus!
