//! ANSI-C string (`$'…'`) decoding and locale-string (`$"…"`) trimming.
use vstd::prelude::*;
use crate::text::{char_from_u32, digit_value, extend_chars, hex_value, octal_value};

verus! {

/// The body of a locale string without its outer pair of `"` (unchanged
/// when it is not wrapped in quotes).
pub fn strip_locale_quotes(content: &[char]) -> (r: Vec<char>)
    ensures
        (content@.len() >= 2 && content@[0] == '"' && content@.last() == '"') ==> r@ == content@.subrange(1, content@.len() - 1),
        !(content@.len() >= 2 && content@[0] == '"' && content@.last() == '"') ==> r@ == content@,
{
    let n = content.len();
    if n >= 2 && content[0] == '"' && content[n - 1] == '"' {
        match crate::text::slice_chars(content, 1, n - 1) {
            Some(v) => v,
            None => crate::text::copy_chars(content),
        }
    } else {
        let mut v: Vec<char> = Vec::new();
        extend_chars(&mut v, content);
        v
    }
}

/// The character a one-letter ANSI-C escape stands for.
pub open spec fn spec_simple_escape(next: char) -> Option<char> {
    if next == 'a' { Some('\u{07}') }
    else if next == 'b' { Some('\u{08}') }
    else if next == 'e' || next == 'E' { Some('\u{1B}') }
    else if next == 'f' { Some('\u{0C}') }
    else if next == 'n' { Some('\n') }
    else if next == 'r' { Some('\r') }
    else if next == 't' { Some('\t') }
    else if next == 'v' { Some('\u{0B}') }
    else if next == '\\' { Some('\\') }
    else if next == '\'' { Some('\'') }
    else if next == '"' { Some('"') }
    else if next == '?' { Some('?') }
    else { None }
}

/// Handles `\a \b \e \E \f \n \r \t \v \\ \' \" \?`.
pub fn decode_simple_escape(next: char) -> (r: Option<char>)
    ensures
        r == spec_simple_escape(next),
{
    if next == 'a' { Some('\u{07}') }
    else if next == 'b' { Some('\u{08}') }
    else if next == 'e' || next == 'E' { Some('\u{1B}') }
    else if next == 'f' { Some('\u{0C}') }
    else if next == 'n' { Some('\n') }
    else if next == 'r' { Some('\r') }
    else if next == 't' { Some('\t') }
    else if next == 'v' { Some('\u{0B}') }
    else if next == '\\' { Some('\\') }
    else if next == '\'' { Some('\'') }
    else if next == '"' { Some('"') }
    else if next == '?' { Some('?') }
    else { None }
}

/// How many digits of base `radix` stand at `start`, counting at most `max`.
pub open spec fn run_len(s: Seq<char>, start: int, radix: u32, max: nat) -> nat
    decreases max,
{
    if max == 0 || start < 0 || start >= s.len() || digit_value(s[start], radix) is None {
        0
    } else {
        1 + run_len(s, start + 1, radix, (max - 1) as nat)
    }
}

/// The number written by the `n` digits of base `radix` at `start`.
pub open spec fn run_value(s: Seq<char>, start: int, radix: u32, n: nat) -> nat
    decreases n,
{
    if n == 0 {
        0
    } else {
        run_value(s, start, radix, (n - 1) as nat) * (radix as nat) + (digit_value(s[start + n - 1], radix)->0 as nat)
    }
}

/// `\NNN` / `\xHH` / `\uHHHH` / `\UHHHHHHHH` digits: the longest run of at
/// most `max` digits, when there is one and it names a Unicode scalar
/// value; with the number of characters used.
pub open spec fn radix_escape(s: Seq<char>, start: int, radix: u32, max: nat) -> Option<(char, nat)> {
    let n = run_len(s, start, radix, max);
    let v = run_value(s, start, radix, n);
    if n > 0 && v <= 0x10FFFF && !(0xD800 <= v && v <= 0xDFFF) {
        Some(((v as u32) as char, n))
    } else {
        None
    }
}

/// `\cX`: `X & 0x1F` for an ASCII `X`.
pub open spec fn control_escape(s: Seq<char>, start: int) -> Option<(char, nat)> {
    if 0 <= start < s.len() && (s[start] as u32) < 128 {
        Some((((s[start] as u32) & 0x1F) as char, 1))
    } else {
        None
    }
}

/// The numeric or control escape whose letter (or first octal digit) is
/// at `start`, with how many characters after the backslash it used.
pub open spec fn numeric_escape(s: Seq<char>, start: int) -> Option<(char, nat)> {
    let first = s[start];
    if first == 'c' {
        match control_escape(s, start + 1) { Some((c, n)) => Some((c, n + 1)), None => None }
    } else if first == 'x' {
        match radix_escape(s, start + 1, 16, 2) { Some((c, n)) => Some((c, n + 1)), None => None }
    } else if first == 'u' {
        match radix_escape(s, start + 1, 16, 4) { Some((c, n)) => Some((c, n + 1)), None => None }
    } else if first == 'U' {
        match radix_escape(s, start + 1, 16, 8) { Some((c, n)) => Some((c, n + 1)), None => None }
    } else if '0' <= first && first <= '7' {
        radix_escape(s, start, 8, 3)
    } else {
        None
    }
}

/// The decoded text of `s[i..]`: a backslash before a known escape stands
/// for the escaped character; an unknown escape, and a backslash at the
/// very end, stay as written.
pub open spec fn ansi_c_decoded(s: Seq<char>, i: int) -> Seq<char>
    decreases s.len() - i,
{
    if i < 0 || i >= s.len() {
        Seq::empty()
    } else if s[i] != '\\' || i + 1 >= s.len() {
        seq![s[i]] + ansi_c_decoded(s, i + 1)
    } else {
        let next = s[i + 1];
        match spec_simple_escape(next) {
            Some(x) => seq![x] + ansi_c_decoded(s, i + 2),
            None => match numeric_escape(s, i + 1) {
                Some((ch, n)) => {
                    let j = if i + 1 + n > s.len() { s.len() as int } else { i + 1 + n };
                    seq![ch] + ansi_c_decoded(s, j)
                },
                None => seq!['\\', next] + ansi_c_decoded(s, i + 2),
            },
        }
    }
}

/// `\e` and `\E` stand for the escape character U+001B, `\n` for a
/// newline, `\t` for a tab and `\\` for one backslash: wherever such a
/// pair stands, the decoding is that one character followed by the
/// decoding of what comes after the pair.
pub proof fn lemma_ansi_c_named_escapes(s: Seq<char>, i: int)
    requires
        0 <= i,
        i + 1 < s.len(),
        s[i] == '\\',
    ensures
        s[i + 1] == 'e' ==> ansi_c_decoded(s, i) == seq!['\u{1B}'] + ansi_c_decoded(s, i + 2),
        s[i + 1] == 'E' ==> ansi_c_decoded(s, i) == seq!['\u{1B}'] + ansi_c_decoded(s, i + 2),
        s[i + 1] == 'n' ==> ansi_c_decoded(s, i) == seq!['\n'] + ansi_c_decoded(s, i + 2),
        s[i + 1] == 't' ==> ansi_c_decoded(s, i) == seq!['\t'] + ansi_c_decoded(s, i + 2),
        s[i + 1] == '\\' ==> ansi_c_decoded(s, i) == seq!['\\'] + ansi_c_decoded(s, i + 2),
{
}

/// Text without a backslash decodes to itself.
pub proof fn lemma_ansi_c_plain_text(s: Seq<char>, i: int)
    requires
        0 <= i <= s.len(),
        forall|k: int| i <= k < s.len() ==> s[k] != '\\',
    ensures
        ansi_c_decoded(s, i) == s.subrange(i, s.len() as int),
    decreases s.len() - i,
{
    if i < s.len() {
        lemma_ansi_c_plain_text(s, i + 1);
        assert(seq![s[i]] + s.subrange(i + 1, s.len() as int) =~= s.subrange(i, s.len() as int));
    } else {
        assert(s.subrange(i, s.len() as int) =~= Seq::<char>::empty());
    }
}

/// Decodes ANSI-C quoted content: control-character escapes, hex, octal
/// and Unicode escapes, `\cX`; unknown escapes stay as written.
pub fn ansi_c_decode(chars: &[char]) -> (r: Vec<char>)
    ensures
        r@ == ansi_c_decoded(chars@, 0),
{
    let mut out: Vec<char> = Vec::new();
    let mut i: usize = 0;
    while i < chars.len()
        invariant
            i <= chars@.len(),
            out@ + ansi_c_decoded(chars@, i as int) == ansi_c_decoded(chars@, 0),
        decreases chars.len() - i,
    {
        let c = chars[i];
        if c != '\\' || i + 1 >= chars.len() {
            out.push(c);
            assert(out@ + ansi_c_decoded(chars@, i + 1) =~= ansi_c_decoded(chars@, 0));
            i = i + 1;
            continue;
        }
        let next = chars[i + 1];
        match decode_simple_escape(next) {
            Some(simple) => {
                out.push(simple);
                assert(out@ + ansi_c_decoded(chars@, i + 2) =~= ansi_c_decoded(chars@, 0));
                i = i + 2;
                continue;
            }
            None => {},
        }
        match decode_numeric_escape(chars, i + 1) {
            Some((ch, consumed)) => {
                out.push(ch);
                assert(out@ + ansi_c_decoded(chars@, i + 1 + consumed) =~= ansi_c_decoded(chars@, 0));
                i = i + 1 + consumed;
                continue;
            }
            None => {},
        }
        out.push('\\');
        out.push(next);
        assert(out@ + ansi_c_decoded(chars@, i + 2) =~= ansi_c_decoded(chars@, 0));
        i = i + 2;
    }
    assert(out@ + ansi_c_decoded(chars@, i as int) =~= out@);
    out
}

/// Numeric and control escapes after the backslash at `start - 1`:
/// `\NNN`, `\xHH`, `\uHHHH`, `\UHHHHHHHH`, `\cX`. Returns the character
/// and how many characters after the backslash it used.
pub fn decode_numeric_escape(chars: &[char], start: usize) -> (r: Option<(char, usize)>)
    requires
        start < chars@.len(),
    ensures
        r matches Some((c, n)) ==> 1 <= n && start + n <= chars@.len(),
        match r {
            Some((c, n)) => numeric_escape(chars@, start as int) == Some((c, n as nat)),
            None => numeric_escape(chars@, start as int) is None,
        },
{
    let first = chars[start];
    if first == 'x' || first == 'u' || first == 'U' || first == 'c' {
        let r = if first == 'c' {
            take_control_escape(chars, start + 1)
        } else {
            let max: usize = if first == 'x' { 2 } else if first == 'u' { 4 } else { 8 };
            take_radix_escape(chars, start + 1, 16, max)
        };
        match r {
            Some((ch, n)) => Some((ch, n + 1)),
            None => None,
        }
    } else if '0' <= first && first <= '7' {
        take_radix_escape(chars, start, 8, 3)
    } else {
        None
    }
}

/// The run of digits at `start` stops after `k` of them.
pub proof fn lemma_run_len(s: Seq<char>, start: int, radix: u32, max: nat, k: nat)
    requires
        0 <= start,
        k <= max,
        forall|j: int| 0 <= j < k ==> start + j < s.len() && #[trigger] digit_value(s[start + j], radix) is Some,
        k == max || start + k >= s.len() || digit_value(s[start + k], radix) is None,
    ensures
        run_len(s, start, radix, max) == k,
    decreases k,
{
    if k > 0 {
        assert forall|j: int| 0 <= j < k - 1 implies start + 1 + j < s.len() && #[trigger] digit_value(s[start + 1 + j], radix) is Some by {
            assert(digit_value(s[start + (j + 1)], radix) is Some);
        }
        lemma_run_len(s, start + 1, radix, (max - 1) as nat, (k - 1) as nat);
        assert(digit_value(s[start + 0], radix) is Some);
    }
}

/// Reads up to `max_digits` digits in base `radix` (8 or 16) at `start`.
pub fn take_radix_escape(chars: &[char], start: usize, radix: u32, max_digits: usize) -> (r: Option<(char, usize)>)
    requires
        start <= chars@.len(),
        radix == 8 || radix == 16,
        max_digits <= 8,
    ensures
        r matches Some((c, n)) ==> 1 <= n <= max_digits && start + n <= chars@.len(),
        match r {
            Some((c, n)) => radix_escape(chars@, start as int, radix, max_digits as nat) == Some((c, n as nat)),
            None => radix_escape(chars@, start as int, radix, max_digits as nat) is None,
        },
{
    let mut value: u32 = 0;
    let mut consumed: usize = 0;
    let mut stopped = false;
    while consumed < max_digits && !stopped
        invariant
            consumed <= max_digits <= 8,
            start + consumed <= chars@.len(),
            radix == 8 || radix == 16,
            value == run_value(chars@, start as int, radix, consumed as nat),
            forall|j: int| 0 <= j < consumed ==> start + j < chars@.len() && #[trigger] digit_value(chars@[start + j], radix) is Some,
            stopped ==> (start + consumed >= chars@.len() || digit_value(chars@[start + consumed], radix) is None),
            consumed == 0 ==> value < 0x1,
            consumed == 1 ==> value < 0x10,
            consumed == 2 ==> value < 0x100,
            consumed == 3 ==> value < 0x1000,
            consumed == 4 ==> value < 0x10000,
            consumed == 5 ==> value < 0x100000,
            consumed == 6 ==> value < 0x1000000,
            consumed == 7 ==> value < 0x10000000,
        decreases max_digits - consumed, if stopped { 0int } else { 1int },
    {
        if consumed >= chars.len() - start {
            stopped = true;
        } else {
            let c = chars[start + consumed];
            let digit = if radix == 16 { hex_value(c) } else { octal_value(c) };
            match digit {
                Some(d) => {
                    value = if radix == 16 { value * 16 + d } else { value * 8 + d };
                    consumed = consumed + 1;
                }
                None => {
                    stopped = true;
                }
            }
        }
    }
    proof {
        lemma_run_len(chars@, start as int, radix, max_digits as nat, consumed as nat);
    }
    if consumed == 0 {
        return None;
    }
    match char_from_u32(value) {
        Some(ch) => {
            proof { vstd::utf8::char_u32_cast(ch, value); }
            Some((ch, consumed))
        }
        None => None,
    }
}

/// `\cX`: the control character `X & 0x1F` for an ASCII `X`.
pub fn take_control_escape(chars: &[char], start: usize) -> (r: Option<(char, usize)>)
    ensures
        r matches Some((c, n)) ==> n == 1 && start < chars@.len() && (c as u32) == (chars@[start as int] as u32) & 0x1F,
        match r {
            Some((c, n)) => control_escape(chars@, start as int) == Some((c, n as nat)),
            None => control_escape(chars@, start as int) is None,
        },
{
    if start >= chars.len() {
        return None;
    }
    let c = chars[start];
    if (c as u32) >= 128 {
        return None;
    }
    let cu = c as u32;
    let byte = cu & 0x1F;
    assert(byte <= 0x1F) by (bit_vector)
        requires
            byte == cu & 0x1F;
    match char_from_u32(byte) {
        Some(ch) => {
            proof { vstd::utf8::char_u32_cast(ch, byte); }
            Some((ch, 1))
        }
        None => None,
    }
}

} // verus!

verus! {

/// Text without a backslash decodes to itself.
pub proof fn lemma_decoded_without_escapes(s: Seq<char>, i: int)
    requires
        0 <= i <= s.len(),
        forall|k: int| i <= k < s.len() ==> #[trigger] s[k] != '\\',
    ensures
        ansi_c_decoded(s, i) == s.subrange(i, s.len() as int),
    decreases s.len() - i,
{
    if i < s.len() {
        lemma_decoded_without_escapes(s, i + 1);
        assert(s.subrange(i, s.len() as int) =~= seq![s[i]] + s.subrange(i + 1, s.len() as int));
    } else {
        assert(s.subrange(i, s.len() as int) =~= Seq::<char>::empty());
    }
}

/// An escape that is not known stays as written: a backslash followed by a
/// character that is neither a one-letter escape nor the start of a numeric
/// or control escape decodes to those two characters.
pub proof fn lemma_unknown_escape_kept(s: Seq<char>, i: int)
    requires
        0 <= i,
        i + 1 < s.len(),
        s[i] == '\\',
        spec_simple_escape(s[i + 1]) is None,
        numeric_escape(s, i + 1) is None,
    ensures
        ansi_c_decoded(s, i) == seq!['\\', s[i + 1]] + ansi_c_decoded(s, i + 2),
{
}

} // verus!
