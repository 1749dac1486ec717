//! Character-level helpers shared by the lexer, the parser and the printer.
use vstd::prelude::*;

verus! {

/// Appends one character to a `String` (std's `String::push`).
#[verifier::external_body]
pub fn push_char(s: &mut String, c: char)
    ensures
        final(s)@ == old(s)@.push(c),
{
    s.push(c);
}

/// Builds a `String` holding exactly the characters of `cs`.
pub fn string_from_chars(cs: &[char]) -> (r: String)
    ensures
        r@ == cs@,
{
    let mut r = String::new();
    let mut i: usize = 0;
    while i < cs.len()
        invariant
            i <= cs@.len(),
            r@ == cs@.subrange(0, i as int),
        decreases cs.len() - i,
    {
        push_char(&mut r, cs[i]);
        i = i + 1;
    }
    r
}

/// The characters of a string slice, in order.
pub fn chars_of(s: &str) -> (r: Vec<char>)
    ensures
        r@ == s@,
{
    let mut r: Vec<char> = Vec::new();
    for c in it: s.chars()
        invariant
            r@ == it.seq().subrange(0, it.index() as int),
    {
        r.push(c);
    }
    r
}

} // verus!

verus! {

/// True when `a` and `b` hold the same characters.
pub fn chars_eq(a: &[char], b: &[char]) -> (r: bool)
    ensures
        r == (a@ == b@),
{
    if a.len() != b.len() {
        return false;
    }
    let mut i: usize = 0;
    while i < a.len()
        invariant
            a@.len() == b@.len(),
            i <= a@.len(),
            forall|j: int| 0 <= j < i ==> a@[j] == b@[j],
        decreases a.len() - i,
    {
        if a[i] != b[i] {
            return false;
        }
        i = i + 1;
    }
    assert(a@ =~= b@);
    true
}

} // verus!

verus! {

/// True when `s` is exactly the 1-character literal given.
pub fn eq1(s: &[char], c0: char) -> (r: bool)
    ensures
        r == (s@ == seq![c0]),
{
    if s.len() != 1 {
        return false;
    }
    let r = s[0] == c0;
    assert(r ==> s@ =~= seq![c0]);
    r
}

/// True when `s` is exactly the 2-character literal given.
pub fn eq2(s: &[char], c0: char, c1: char) -> (r: bool)
    ensures
        r == (s@ == seq![c0, c1]),
{
    if s.len() != 2 {
        return false;
    }
    let r = s[0] == c0 && s[1] == c1;
    assert(r ==> s@ =~= seq![c0, c1]);
    r
}

/// True when `s` is exactly the 3-character literal given.
pub fn eq3(s: &[char], c0: char, c1: char, c2: char) -> (r: bool)
    ensures
        r == (s@ == seq![c0, c1, c2]),
{
    if s.len() != 3 {
        return false;
    }
    let r = s[0] == c0 && s[1] == c1 && s[2] == c2;
    assert(r ==> s@ =~= seq![c0, c1, c2]);
    r
}

/// True when `s` is exactly the 4-character literal given.
pub fn eq4(s: &[char], c0: char, c1: char, c2: char, c3: char) -> (r: bool)
    ensures
        r == (s@ == seq![c0, c1, c2, c3]),
{
    if s.len() != 4 {
        return false;
    }
    let r = s[0] == c0 && s[1] == c1 && s[2] == c2 && s[3] == c3;
    assert(r ==> s@ =~= seq![c0, c1, c2, c3]);
    r
}

/// True when `s` is exactly the 5-character literal given.
pub fn eq5(s: &[char], c0: char, c1: char, c2: char, c3: char, c4: char) -> (r: bool)
    ensures
        r == (s@ == seq![c0, c1, c2, c3, c4]),
{
    if s.len() != 5 {
        return false;
    }
    let r = s[0] == c0 && s[1] == c1 && s[2] == c2 && s[3] == c3 && s[4] == c4;
    assert(r ==> s@ =~= seq![c0, c1, c2, c3, c4]);
    r
}

/// True when `s` is exactly the 6-character literal given.
pub fn eq6(s: &[char], c0: char, c1: char, c2: char, c3: char, c4: char, c5: char) -> (r: bool)
    ensures
        r == (s@ == seq![c0, c1, c2, c3, c4, c5]),
{
    if s.len() != 6 {
        return false;
    }
    let r = s[0] == c0 && s[1] == c1 && s[2] == c2 && s[3] == c3 && s[4] == c4 && s[5] == c5;
    assert(r ==> s@ =~= seq![c0, c1, c2, c3, c4, c5]);
    r
}


/// True when `s` is exactly the 8-character literal given.
pub fn eq8(s: &[char], c0: char, c1: char, c2: char, c3: char, c4: char, c5: char, c6: char, c7: char) -> (r: bool)
    ensures
        r == (s@ == seq![c0, c1, c2, c3, c4, c5, c6, c7]),
{
    if s.len() != 8 {
        return false;
    }
    let r = s[0] == c0 && s[1] == c1 && s[2] == c2 && s[3] == c3 && s[4] == c4 && s[5] == c5 && s[6] == c6 && s[7] == c7;
    assert(r ==> s@ =~= seq![c0, c1, c2, c3, c4, c5, c6, c7]);
    r
}

} // verus!

verus! {

/// Unicode white space, as `char::is_whitespace` defines it.
pub open spec fn is_whitespace(c: char) -> bool {
    c == ' ' || c == '\t' || c == '\n' || c == '\r' || c == '\u{0B}' || c == '\u{0C}'
        || c == '\u{85}' || c == '\u{A0}' || c == '\u{1680}'
        || ('\u{2000}' <= c && c <= '\u{200A}') || c == '\u{2028}' || c == '\u{2029}'
        || c == '\u{202F}' || c == '\u{205F}' || c == '\u{3000}'
}

/// True for Unicode white space.
pub fn whitespace(c: char) -> (r: bool)
    ensures
        r == is_whitespace(c),
{
    c == ' ' || c == '\t' || c == '\n' || c == '\r' || c == '\u{0B}' || c == '\u{0C}'
        || c == '\u{85}' || c == '\u{A0}' || c == '\u{1680}'
        || ('\u{2000}' <= c && c <= '\u{200A}') || c == '\u{2028}' || c == '\u{2029}'
        || c == '\u{202F}' || c == '\u{205F}' || c == '\u{3000}'
}

} // verus!

verus! {

/// True when `s` holds exactly the characters of `lit`.
pub fn string_is(s: &String, lit: &str) -> (r: bool)
    ensures
        r == (s@ == lit@),
{
    let a = chars_of(s.as_str());
    let b = chars_of(lit);
    chars_eq(a.as_slice(), b.as_slice())
}

} // verus!

verus! {

/// A Unicode scalar value: at most `0x10FFFF` and not a surrogate.
pub open spec fn is_scalar(v: u32) -> bool {
    v <= 0x10FFFF && !(0xD800 <= v && v <= 0xDFFF)
}

/// The character with code point `v` (std's `char::from_u32`): `None`
/// exactly when `v` is not a Unicode scalar value.
#[verifier::external_body]
pub fn char_from_u32(v: u32) -> (r: Option<char>)
    ensures
        r is Some <==> is_scalar(v),
        r is Some ==> r->0 as u32 == v,
{
    char::from_u32(v)
}

/// Value of `c` as a digit in base `radix` (8 or 16), if it is one.
pub open spec fn digit_value(c: char, radix: u32) -> Option<u32> {
    if '0' <= c && c <= '9' && ((c as u32) - ('0' as u32)) < radix {
        Some(((c as u32) - ('0' as u32)) as u32)
    } else if radix == 16 && 'a' <= c && c <= 'f' {
        Some(((c as u32) - ('a' as u32) + 10) as u32)
    } else if radix == 16 && 'A' <= c && c <= 'F' {
        Some(((c as u32) - ('A' as u32) + 10) as u32)
    } else {
        None
    }
}

/// Value of `c` as a digit in base 16, if it is one.
pub fn hex_value(c: char) -> (r: Option<u32>)
    ensures
        r == digit_value(c, 16),
        r is Some ==> r->0 < 16,
        r is Some <==> (('0' <= c && c <= '9') || ('a' <= c && c <= 'f') || ('A' <= c && c <= 'F')),
{
    if '0' <= c && c <= '9' {
        Some((c as u32) - ('0' as u32))
    } else if 'a' <= c && c <= 'f' {
        Some((c as u32) - ('a' as u32) + 10)
    } else if 'A' <= c && c <= 'F' {
        Some((c as u32) - ('A' as u32) + 10)
    } else {
        None
    }
}

/// Value of `c` as a digit in base 8, if it is one.
pub fn octal_value(c: char) -> (r: Option<u32>)
    ensures
        r == digit_value(c, 8),
        r is Some ==> r->0 < 8,
        r is Some <==> ('0' <= c && c <= '7'),
{
    if '0' <= c && c <= '7' {
        Some((c as u32) - ('0' as u32))
    } else {
        None
    }
}

/// The characters `s[a..b]`, when `a <= b <= s.len()`.
pub fn slice_chars(s: &[char], a: usize, b: usize) -> (r: Option<Vec<char>>)
    ensures
        r is Some <==> a <= b <= s@.len(),
        r is Some ==> r->0@ == s@.subrange(a as int, b as int),
{
    if a > b || b > s.len() {
        return None;
    }
    let mut v: Vec<char> = Vec::new();
    let mut i = a;
    while i < b
        invariant
            a <= i <= b <= s@.len(),
            v@ == s@.subrange(a as int, i as int),
        decreases b - i,
    {
        v.push(s[i]);
        i = i + 1;
    }
    Some(v)
}

/// Appends the characters of `b` to `a`.
pub fn extend_chars(a: &mut Vec<char>, b: &[char])
    ensures
        final(a)@ == old(a)@ + b@,
{
    let mut i: usize = 0;
    while i < b.len()
        invariant
            i <= b@.len(),
            a@ == old(a)@ + b@.subrange(0, i as int),
        decreases b.len() - i,
    {
        a.push(b[i]);
        i = i + 1;
    }
    assert(b@.subrange(0, b@.len() as int) =~= b@);
}


} // verus!

verus! {

/// A copy of the characters of `s`.
pub fn copy_chars(s: &[char]) -> (r: Vec<char>)
    ensures
        r@ == s@,
{
    let mut v: Vec<char> = Vec::new();
    extend_chars(&mut v, s);
    v
}

} // verus!

verus! {

/// Appends the characters of a string slice.
pub fn push_str(out: &mut Vec<char>, s: &str)
    ensures
        final(out)@ == old(out)@ + s@,
{
    let cs = chars_of(s);
    extend_chars(out, cs.as_slice());
}

/// Appends the characters of a string.
pub fn push_string(out: &mut Vec<char>, s: &String)
    ensures
        final(out)@ == old(out)@ + s@,
{
    let cs = chars_of(s.as_str());
    extend_chars(out, cs.as_slice());
}

/// `s` without its leading white space.
pub open spec fn trim_start(s: Seq<char>) -> Seq<char>
    decreases s.len(),
{
    if s.len() > 0 && is_whitespace(s[0]) {
        trim_start(s.drop_first())
    } else {
        s
    }
}

/// `s` without its trailing white space.
pub open spec fn trim_end(s: Seq<char>) -> Seq<char>
    decreases s.len(),
{
    if s.len() > 0 && is_whitespace(s.last()) {
        trim_end(s.drop_last())
    } else {
        s
    }
}

/// `s` without white space at either end.
pub open spec fn trim(s: Seq<char>) -> Seq<char> {
    trim_end(trim_start(s))
}

/// `s` without its trailing spaces and tabs.
pub open spec fn trim_blanks_end(s: Seq<char>) -> Seq<char>
    decreases s.len(),
{
    if s.len() > 0 && (s.last() == ' ' || s.last() == '\t') {
        trim_blanks_end(s.drop_last())
    } else {
        s
    }
}

/// The index of the first character of `s[lo..hi]` that is not white space
/// (`hi` when there is none).
pub fn skip_ws_forward(s: &[char], lo: usize, hi: usize) -> (r: usize)
    requires
        lo <= hi <= s@.len(),
    ensures
        lo <= r <= hi,
        trim_start(s@.subrange(lo as int, hi as int)) == s@.subrange(r as int, hi as int),
{
    let mut i = lo;
    while i < hi && whitespace(s[i])
        invariant
            lo <= i <= hi <= s@.len(),
            trim_start(s@.subrange(lo as int, hi as int)) == trim_start(s@.subrange(i as int, hi as int)),
        decreases hi - i,
    {
        assert(s@.subrange(i as int, hi as int).drop_first() =~= s@.subrange(i + 1, hi as int));
        i = i + 1;
    }
    i
}

/// The end of `s[lo..hi]` once trailing white space is removed.
pub fn skip_ws_backward(s: &[char], lo: usize, hi: usize) -> (r: usize)
    requires
        lo <= hi <= s@.len(),
    ensures
        lo <= r <= hi,
        trim_end(s@.subrange(lo as int, hi as int)) == s@.subrange(lo as int, r as int),
{
    let mut j = hi;
    while j > lo && whitespace(s[j - 1])
        invariant
            lo <= j <= hi <= s@.len(),
            trim_end(s@.subrange(lo as int, hi as int)) == trim_end(s@.subrange(lo as int, j as int)),
        decreases j - lo,
    {
        assert(s@.subrange(lo as int, j as int).drop_last() =~= s@.subrange(lo as int, j - 1));
        j = j - 1;
    }
    j
}

/// The end of `s[0..hi]` once trailing spaces and tabs are removed.
pub fn skip_blanks_backward(s: &[char], hi: usize) -> (r: usize)
    requires
        hi <= s@.len(),
    ensures
        r <= hi,
        trim_blanks_end(s@.subrange(0, hi as int)) == s@.subrange(0, r as int),
{
    let mut j = hi;
    while j > 0 && (s[j - 1] == ' ' || s[j - 1] == '\t')
        invariant
            j <= hi <= s@.len(),
            trim_blanks_end(s@.subrange(0, hi as int)) == trim_blanks_end(s@.subrange(0, j as int)),
        decreases j,
    {
        assert(s@.subrange(0, j as int).drop_last() =~= s@.subrange(0, j - 1));
        j = j - 1;
    }
    j
}

} // verus!

verus! {

/// `b` starts with all of `a`.
pub open spec fn extends(a: Seq<char>, b: Seq<char>) -> bool {
    a.len() <= b.len() && forall|i: int| 0 <= i < a.len() ==> #[trigger] b[i] == a[i]
}



} // verus!

verus! {

/// What `char::is_alphanumeric` returns for `c`.
pub uninterp spec fn alphanumeric_spec(c: char) -> bool;

/// `char::is_alphanumeric`: true for characters that are alphabetic or
/// numeric in Unicode. For ASCII those are exactly the letters and digits,
/// as its documentation states.
#[verifier::external_body]
pub fn alphanumeric(c: char) -> (r: bool)
    ensures
        r == alphanumeric_spec(c),
        (c as u32) < 128 ==> (r <==> (('a' <= c && c <= 'z') || ('A' <= c && c <= 'Z') || ('0' <= c && c <= '9'))),
{
    c.is_alphanumeric()
}

/// The number of bytes of `c` in UTF-8.
pub open spec fn utf8_width(c: char) -> nat {
    if (c as u32) < 0x80 {
        1
    } else if (c as u32) < 0x800 {
        2
    } else if (c as u32) < 0x10000 {
        3
    } else {
        4
    }
}

/// The number of bytes of `s` in UTF-8.
pub open spec fn utf8_len(s: Seq<char>) -> nat
    decreases s.len(),
{
    if s.len() == 0 {
        0
    } else {
        utf8_len(s.drop_last()) + utf8_width(s.last())
    }
}

/// True when `s` takes more than `limit` bytes in UTF-8.
pub fn utf8_len_exceeds(s: &[char], limit: usize) -> (r: bool)
    ensures
        r == (utf8_len(s@) > limit),
{
    let mut total: usize = 0;
    let mut i: usize = 0;
    while i < s.len()
        invariant
            i <= s@.len(),
            total == utf8_len(s@.subrange(0, i as int)),
            total <= limit,
        decreases s.len() - i,
    {
        let c = s[i];
        let w: usize = if (c as u32) < 0x80 { 1 } else if (c as u32) < 0x800 { 2 } else if (c as u32) < 0x10000 { 3 } else { 4 };
        assert(s@.subrange(0, i + 1).drop_last() =~= s@.subrange(0, i as int));
        if w > limit - total {
            proof { lemma_utf8_len_prefix_mono(s@, i + 1); }
            return true;
        }
        total = total + w;
        i = i + 1;
    }
    assert(s@.subrange(0, s@.len() as int) =~= s@);
    false
}

/// The byte offset, in UTF-8, of the character at index `i` of `s` (the
/// end of `s` for a larger `i`), kept within `usize`.
pub open spec fn byte_pos(s: Seq<char>, i: int) -> nat {
    let k = if i < 0 { 0 } else if i > s.len() { s.len() as int } else { i };
    let b = utf8_len(s.subrange(0, k));
    if b <= usize::MAX { b } else { usize::MAX as nat }
}

/// Computes `byte_pos`.
pub fn byte_offset(s: &[char], i: usize) -> (r: usize)
    ensures
        r == byte_pos(s@, i as int),
{
    let k = if i > s.len() { s.len() } else { i };
    let mut total: usize = 0;
    let mut j: usize = 0;
    while j < k
        invariant
            j <= k <= s@.len(),
            total as nat == (if utf8_len(s@.subrange(0, j as int)) <= usize::MAX { utf8_len(s@.subrange(0, j as int)) } else { usize::MAX as nat }),
        decreases k - j,
    {
        let c = s[j];
        let w: usize = if (c as u32) < 0x80 { 1 } else if (c as u32) < 0x800 { 2 } else if (c as u32) < 0x10000 { 3 } else { 4 };
        assert(s@.subrange(0, j + 1).drop_last() =~= s@.subrange(0, j as int));
        total = total.saturating_add(w);
        j = j + 1;
    }
    total
}

/// Every character takes at least one byte in UTF-8.
pub proof fn lemma_len_le_utf8_len(s: Seq<char>)
    ensures
        s.len() <= utf8_len(s),
    decreases s.len(),
{
    if s.len() > 0 {
        lemma_len_le_utf8_len(s.drop_last());
    }
}

/// The UTF-8 length of a prefix is at most that of the whole.
pub proof fn lemma_utf8_len_prefix_mono(s: Seq<char>, k: int)
    requires
        0 <= k <= s.len(),
    ensures
        utf8_len(s.subrange(0, k)) <= utf8_len(s),
    decreases s.len() - k,
{
    if k < s.len() {
        lemma_utf8_len_prefix_mono(s, k + 1);
        assert(s.subrange(0, k + 1).drop_last() =~= s.subrange(0, k));
    } else {
        assert(s.subrange(0, k) =~= s);
    }
}

} // verus!

verus! {

/// What `trim_start` leaves starts with a character that is not white
/// space, when anything is left.
pub proof fn lemma_trim_start_first(s: Seq<char>)
    ensures
        trim_start(s).len() > 0 ==> !is_whitespace(trim_start(s)[0]),
    decreases s.len(),
{
    if s.len() > 0 && is_whitespace(s[0]) {
        lemma_trim_start_first(s.drop_first());
    }
}

} // verus!

verus! {

/// A text that ends in a newline keeps all of it when trailing blanks are
/// removed.
pub proof fn lemma_trim_blanks_keeps_newline(s: Seq<char>)
    requires
        s.len() > 0,
        s.last() == '\n',
    ensures
        trim_blanks_end(s) == s,
{
}

/// Removing trailing blanks leaves a prefix that does not end in a blank,
/// and what was removed is all spaces and tabs.
pub proof fn lemma_trim_blanks_end_shape(s: Seq<char>)
    ensures
        trim_blanks_end(s).len() <= s.len(),
        trim_blanks_end(s) == s.subrange(0, trim_blanks_end(s).len() as int),
        trim_blanks_end(s).len() > 0 ==> trim_blanks_end(s).last() != ' ' && trim_blanks_end(s).last() != '\t',
        forall|i: int| trim_blanks_end(s).len() <= i < s.len() ==> #[trigger] s[i] == ' ' || s[i] == '\t',
    decreases s.len(),
{
    if s.len() > 0 && (s.last() == ' ' || s.last() == '\t') {
        let t = s.drop_last();
        lemma_trim_blanks_end_shape(t);
        assert forall|i: int| trim_blanks_end(s).len() <= i < s.len() implies #[trigger] s[i] == ' ' || s[i] == '\t' by {
            if i < t.len() {
                assert(s[i] == t[i]);
            }
        }
        assert(trim_blanks_end(s) =~= s.subrange(0, trim_blanks_end(s).len() as int));
    } else {
        assert(s =~= s.subrange(0, s.len() as int));
    }
}

/// Trimming white space twice is trimming it once.
pub proof fn lemma_trim_idempotent(s: Seq<char>)
    ensures
        trim(trim(s)) == trim(s),
{
    lemma_trim_start_first(s);
    lemma_trim_end_keeps_start(trim_start(s));
    lemma_trim_start_of_unblank(trim(s));
    lemma_trim_end_twice(trim_start(s));
}

/// `trim_end` of a text starting with a non-space still starts with it.
proof fn lemma_trim_end_keeps_start(s: Seq<char>)
    requires
        s.len() > 0 ==> !is_whitespace(s[0]),
    ensures
        trim_end(s).len() > 0 ==> !is_whitespace(trim_end(s)[0]),
        trim_end(s).len() <= s.len(),
        trim_end(s).len() > 0 ==> trim_end(s)[0] == s[0],
    decreases s.len(),
{
    if s.len() > 0 && is_whitespace(s.last()) {
        lemma_trim_end_keeps_start(s.drop_last());
    }
}

/// `trim_start` leaves a text that starts with a non-space as it is.
proof fn lemma_trim_start_of_unblank(s: Seq<char>)
    requires
        s.len() > 0 ==> !is_whitespace(s[0]),
    ensures
        trim_start(s) == s,
{
}

/// `trim_end` is idempotent.
proof fn lemma_trim_end_twice(s: Seq<char>)
    ensures
        trim_end(trim_end(s)) == trim_end(s),
    decreases s.len(),
{
    if s.len() > 0 && is_whitespace(s.last()) {
        lemma_trim_end_twice(s.drop_last());
    }
}

} // verus!
